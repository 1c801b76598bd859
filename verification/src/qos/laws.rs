//! What holds of the encoding of QoS policies and of their normal form.
use vstd::prelude::*;
use vstd::set_lib::*;

use crate::protocol::codec::{
    law_string_canonical, law_string_round_trip, spec_read_string, string_bytes, string_fits,
};
use crate::protocol::error::ProtocolErrorView;
use crate::qos::codec::{
    policy_bytes, policy_parts, policy_value_bytes, qos_bytes, spec_parse_policies,
    spec_parse_policy, spec_parse_qos, spec_read_kind, spec_read_kind_u32, spec_read_partitions,
    spec_read_strings, spec_read_u32, string_parts,
};
use crate::qos::policy::{kept, normal_form, normalized_same, QosPolicyView};
use crate::wire::{buffer_limit, concat, le32_bytes, lemma_bytes_of_le32, lemma_le32_of_bytes};

verus! {

broadcast use crate::wire::group_le_lengths;

// ---------------------------------------------------------------------------
// The encoding
// ---------------------------------------------------------------------------

/// Whether the fields of a policy are in their ranges.
pub open spec fn policy_in_range(policy: QosPolicyView) -> bool {
    match policy {
        QosPolicyView::Reliability { kind, .. } => kind <= 1,
        QosPolicyView::Durability { kind } => kind <= 3,
        QosPolicyView::History { kind, .. } => kind <= 1,
        QosPolicyView::Liveliness { kind, .. } => kind <= 2,
        QosPolicyView::DestinationOrder { kind } => kind <= 1,
        QosPolicyView::Presentation { access_scope, coherent_access, ordered_access } => {
            access_scope <= 2 && coherent_access <= 1 && ordered_access <= 1
        },
        QosPolicyView::Partition { partitions } => {
            partitions.len() <= 255 && forall|i: int|
                0 <= i < partitions.len() ==> string_fits(#[trigger] partitions[i])
        },
        QosPolicyView::Ownership { kind } => kind <= 1,
        QosPolicyView::WriterDataLifecycle { autodispose_unregistered_instances } => {
            autodispose_unregistered_instances <= 1
        },
        _ => true,
    }
}

/// Whether no two policies are of the same kind.
pub open spec fn ids_distinct(policies: Seq<QosPolicyView>) -> bool {
    forall|i: int, j: int|
        0 <= i < j < policies.len() ==> (#[trigger] policies[i]).id() != (
        #[trigger] policies[j]).id()
}

/// Whether a list of policies is one that a payload can hold: every field in
/// its range, and no two policies of the same kind.
pub open spec fn qos_valid(policies: Seq<QosPolicyView>) -> bool {
    &&& forall|i: int| 0 <= i < policies.len() ==> policy_in_range(#[trigger] policies[i])
    &&& ids_distinct(policies)
}

proof fn lemma_strings_round_trip(strings: Seq<Seq<char>>, rest: Seq<u8>)
    requires
        forall|i: int| 0 <= i < strings.len() ==> string_fits(#[trigger] strings[i]),
    ensures
        spec_read_strings(concat(string_parts(strings)) + rest, strings.len()) == (
            Ok::<Seq<Seq<char>>, ProtocolErrorView>(strings),
            rest,
        ),
    decreases strings.len(),
{
    let parts = string_parts(strings);
    if strings.len() == 0 {
        assert(concat(parts) + rest =~= rest);
        assert(strings =~= Seq::<Seq<char>>::empty());
    } else {
        let tail = strings.drop_first();
        assert forall|i: int| 0 <= i < tail.len() implies string_fits(#[trigger] tail[i]) by {
            assert(tail[i] == strings[i + 1]);
        }
        assert(parts.drop_first() =~= string_parts(tail));
        assert(parts[0] == string_bytes(strings[0]));
        let after = concat(string_parts(tail)) + rest;
        assert(concat(parts) + rest =~= string_bytes(strings[0]) + after);
        law_string_round_trip(strings[0], after);
        lemma_strings_round_trip(tail, rest);
        assert(seq![strings[0]] + tail =~= strings);
    }
}

proof fn lemma_strings_canonical(
    s: Seq<u8>,
    count: nat,
    strings: Seq<Seq<char>>,
    rest: Seq<u8>,
)
    requires
        spec_read_strings(s, count) == (Ok::<Seq<Seq<char>>, ProtocolErrorView>(strings), rest),
    ensures
        s == concat(string_parts(strings)) + rest,
        strings.len() == count,
        forall|i: int| 0 <= i < strings.len() ==> string_fits(#[trigger] strings[i]),
    decreases count,
{
    let parts = string_parts(strings);
    if count == 0 {
        assert(concat(parts) + rest =~= rest);
    } else {
        let (first, after) = spec_read_string(s);
        let text = first->Ok_0;
        let tail = spec_read_strings(after, (count - 1) as nat).0->Ok_0;
        law_string_canonical(s, text, after);
        lemma_strings_canonical(after, (count - 1) as nat, tail, rest);
        assert(strings.drop_first() =~= tail);
        assert(parts.drop_first() =~= string_parts(tail));
        assert(parts[0] == string_bytes(text));
        assert(s =~= concat(parts) + rest);
        assert forall|i: int| 0 <= i < strings.len() implies string_fits(
            #[trigger] strings[i],
        ) by {
            if i > 0 {
                assert(strings[i] == tail[i - 1]);
            }
        }
    }
}

pub proof fn lemma_policy_round_trip(policy: QosPolicyView, rest: Seq<u8>)
    requires
        policy_in_range(policy),
    ensures
        spec_parse_policy(policy.id(), policy_value_bytes(policy) + rest) == (
            Ok::<QosPolicyView, ProtocolErrorView>(policy),
            rest,
        ),
{
    reveal(spec_parse_policy);
    let s = policy_value_bytes(policy) + rest;
    match policy {
        QosPolicyView::Reliability { kind, max_blocking_time_ms: v } | QosPolicyView::History {
            kind,
            depth: v,
        } | QosPolicyView::Liveliness { kind, lease_duration_ms: v } => {
            assert(s.skip(1) =~= le32_bytes(v as int) + rest);
            assert(s.skip(5) =~= rest);
            assert(s[0] == kind);
            lemma_le32_of_bytes(v as int, rest);
        },
        QosPolicyView::Deadline { period_ms: v } | QosPolicyView::LatencyBudget { duration_ms: v }
        | QosPolicyView::OwnershipStrength { value: v } | QosPolicyView::TimeBasedFilter {
            minimum_separation_ms: v,
        } => {
            assert(s.skip(4) =~= rest);
            lemma_le32_of_bytes(v as int, rest);
        },
        QosPolicyView::Durability { kind } | QosPolicyView::DestinationOrder { kind }
        | QosPolicyView::Ownership { kind } | QosPolicyView::WriterDataLifecycle {
            autodispose_unregistered_instances: kind,
        } => {
            assert(s[0] == kind);
            assert(s.skip(1) =~= rest);
        },
        QosPolicyView::Presentation { access_scope, coherent_access, ordered_access } => {
            assert(s[0] == access_scope && s[1] == coherent_access && s[2] == ordered_access);
            assert(s.skip(3) =~= rest);
        },
        QosPolicyView::Partition { partitions } => {
            assert(s[0] == partitions.len());
            assert(s.skip(1) =~= concat(string_parts(partitions)) + rest);
            lemma_strings_round_trip(partitions, rest);
        },
    }
}

proof fn lemma_u32_canonical(s: Seq<u8>, v: u32, rest: Seq<u8>)
    requires
        spec_read_u32(s) == (Ok::<u32, ProtocolErrorView>(v), rest),
    ensures
        s == le32_bytes(v as int) + rest,
{
    lemma_bytes_of_le32(s);
    assert(s =~= s.take(4) + rest);
}

proof fn lemma_kind_canonical(s: Seq<u8>, name: Seq<char>, max: u8, kind: u8, rest: Seq<u8>)
    requires
        spec_read_kind(s, name, max) == (Ok::<u8, ProtocolErrorView>(kind), rest),
    ensures
        s == seq![kind] + rest,
        kind <= max,
{
    assert(s =~= seq![kind] + rest);
}

proof fn lemma_kind_u32_canonical(
    s: Seq<u8>,
    name: Seq<char>,
    max: u8,
    v: (u8, u32),
    rest: Seq<u8>,
)
    requires
        spec_read_kind_u32(s, name, max) == (Ok::<(u8, u32), ProtocolErrorView>(v), rest),
    ensures
        s == (seq![v.0] + le32_bytes(v.1 as int)) + rest,
        v.0 <= max,
{
    lemma_bytes_of_le32(s.skip(1));
    assert(s =~= (seq![v.0] + s.skip(1).take(4)) + rest);
}

proof fn lemma_partitions_canonical(s: Seq<u8>, strings: Seq<Seq<char>>, rest: Seq<u8>)
    requires
        spec_read_partitions(s) == (Ok::<Seq<Seq<char>>, ProtocolErrorView>(strings), rest),
    ensures
        s == (seq![(strings.len() as int % 0x100) as u8] + concat(string_parts(strings))) + rest,
        strings.len() <= 255,
        forall|i: int| 0 <= i < strings.len() ==> string_fits(#[trigger] strings[i]),
{
    lemma_strings_canonical(s.skip(1), s[0] as nat, strings, rest);
    assert(strings.len() as int % 0x100 == s[0]);
    assert(s =~= seq![s[0]] + s.skip(1));
    assert(s =~= (seq![(strings.len() as int % 0x100) as u8] + concat(string_parts(strings)))
        + rest);
}

proof fn lemma_policy_canonical(id: u8, s: Seq<u8>, policy: QosPolicyView, rest: Seq<u8>)
    requires
        spec_parse_policy(id, s) == (Ok::<QosPolicyView, ProtocolErrorView>(policy), rest),
    ensures
        policy.id() == id,
        s == policy_value_bytes(policy) + rest,
        policy_in_range(policy),
{
    reveal(spec_parse_policy);
    if id == 0x01 {
        let v = spec_read_kind_u32(s, "reliability kind"@, 1).0->Ok_0;
        lemma_kind_u32_canonical(s, "reliability kind"@, 1, v, rest);
    } else if id == 0x02 {
        let v = spec_read_kind(s, "durability kind"@, 3).0->Ok_0;
        lemma_kind_canonical(s, "durability kind"@, 3, v, rest);
    } else if id == 0x03 {
        let v = spec_read_kind_u32(s, "history kind"@, 1).0->Ok_0;
        lemma_kind_u32_canonical(s, "history kind"@, 1, v, rest);
    } else if id == 0x04 || id == 0x05 || id == 0x06 || id == 0x0D {
        lemma_u32_canonical(s, spec_read_u32(s).0->Ok_0, rest);
    } else if id == 0x07 {
        let v = spec_read_kind_u32(s, "liveliness kind"@, 2).0->Ok_0;
        lemma_kind_u32_canonical(s, "liveliness kind"@, 2, v, rest);
    } else if id == 0x08 {
        let v = spec_read_kind(s, "destination_order kind"@, 1).0->Ok_0;
        lemma_kind_canonical(s, "destination_order kind"@, 1, v, rest);
    } else if id == 0x09 {
        assert(s =~= seq![s[0], s[1], s[2]] + rest);
    } else if id == 0x0A {
        lemma_partitions_canonical(s, spec_read_partitions(s).0->Ok_0, rest);
    } else if id == 0x0B {
        let v = spec_read_kind(s, "ownership kind"@, 1).0->Ok_0;
        lemma_kind_canonical(s, "ownership kind"@, 1, v, rest);
    } else if id == 0x0C {
        assert(s =~= seq![s[0]] + rest);
    }
}

proof fn lemma_policies_round_trip(policies: Seq<QosPolicyView>, seen: Set<u8>, rest: Seq<u8>)
    requires
        qos_valid(policies),
        forall|i: int| 0 <= i < policies.len() ==> !seen.contains((#[trigger] policies[i]).id()),
    ensures
        spec_parse_policies(concat(policy_parts(policies)) + rest, policies.len(), seen) == (
            Ok::<Seq<QosPolicyView>, ProtocolErrorView>(policies),
            rest,
        ),
    decreases policies.len(),
{
    let parts = policy_parts(policies);
    if policies.len() == 0 {
        assert(concat(parts) + rest =~= rest);
        assert(policies =~= Seq::<QosPolicyView>::empty());
    } else {
        let head = policies[0];
        let tail = policies.drop_first();
        let later = seen.insert(head.id());
        assert forall|i: int| 0 <= i < tail.len() implies !later.contains(
            (#[trigger] tail[i]).id(),
        ) by {
            assert(tail[i] == policies[i + 1]);
            assert(policies[0].id() != policies[i + 1].id());
        }
        assert forall|i: int| 0 <= i < tail.len() implies policy_in_range(#[trigger] tail[i]) by {
            assert(tail[i] == policies[i + 1]);
        }
        assert forall|i: int, j: int| 0 <= i < j < tail.len() implies (#[trigger] tail[i]).id()
            != (#[trigger] tail[j]).id() by {
            assert(tail[i] == policies[i + 1] && tail[j] == policies[j + 1]);
        }
        assert(parts.drop_first() =~= policy_parts(tail));
        assert(parts[0] == policy_bytes(head));
        let after = concat(policy_parts(tail)) + rest;
        let s = concat(parts) + rest;
        assert(s =~= seq![head.id()] + (policy_value_bytes(head) + after));
        assert(s[0] == head.id());
        assert(s.skip(1) =~= policy_value_bytes(head) + after);
        lemma_policy_round_trip(head, after);
        lemma_policies_round_trip(tail, later, rest);
        assert(seq![head] + tail =~= policies);
    }
}

/// There are thirteen kinds of policies, so a list without two of a kind has
/// at most thirteen.
pub proof fn lemma_distinct_ids_bound(policies: Seq<QosPolicyView>)
    requires
        ids_distinct(policies),
    ensures
        policies.len() <= 13,
{
    let ids = policies.map_values(|p: QosPolicyView| p.id() as int);
    assert(ids.no_duplicates()) by {
        assert forall|i: int, j: int|
            0 <= i < ids.len() && 0 <= j < ids.len() && i != j implies ids[i] != ids[j] by {
            if i < j {
                assert(policies[i].id() != policies[j].id());
            } else {
                assert(policies[j].id() != policies[i].id());
            }
        }
    }
    ids.unique_seq_to_set();
    lemma_int_range(1, 14);
    assert(ids.to_set().subset_of(set_int_range(1, 14)));
    lemma_len_subset(ids.to_set(), set_int_range(1, 14));
}

/// Policies that are written are read back, and the cursor stands behind them.
pub proof fn law_qos_round_trip(policies: Seq<QosPolicyView>, rest: Seq<u8>)
    requires
        qos_valid(policies),
    ensures
        spec_parse_qos(qos_bytes(policies) + rest) == (
            Ok::<Seq<QosPolicyView>, ProtocolErrorView>(policies),
            rest,
        ),
{
    let s = qos_bytes(policies) + rest;
    lemma_distinct_ids_bound(policies);
    assert(s[0] == policies.len());
    assert(s.skip(1) =~= concat(policy_parts(policies)) + rest);
    lemma_policies_round_trip(policies, Set::empty(), rest);
}

proof fn lemma_policies_canonical(
    s: Seq<u8>,
    count: nat,
    seen: Set<u8>,
    policies: Seq<QosPolicyView>,
    rest: Seq<u8>,
)
    requires
        spec_parse_policies(s, count, seen) == (
            Ok::<Seq<QosPolicyView>, ProtocolErrorView>(policies),
            rest,
        ),
    ensures
        s == concat(policy_parts(policies)) + rest,
        policies.len() == count,
        qos_valid(policies),
        forall|i: int| 0 <= i < policies.len() ==> !seen.contains((#[trigger] policies[i]).id()),
    decreases count,
{
    let parts = policy_parts(policies);
    if count == 0 {
        assert(concat(parts) + rest =~= rest);
    } else {
        let (first, after) = spec_parse_policy(s[0], s.skip(1));
        let head = first->Ok_0;
        let later = seen.insert(s[0]);
        let tail = spec_parse_policies(after, (count - 1) as nat, later).0->Ok_0;
        lemma_policy_canonical(s[0], s.skip(1), head, after);
        lemma_policies_canonical(after, (count - 1) as nat, later, tail, rest);
        assert(policies =~= seq![head] + tail);
        assert(policies.drop_first() =~= tail);
        assert(parts.drop_first() =~= policy_parts(tail));
        assert(parts[0] == policy_bytes(head));
        assert(s =~= seq![s[0]] + s.skip(1));
        assert(s =~= concat(parts) + rest);
        assert forall|i: int| 0 <= i < policies.len() implies !seen.contains(
            (#[trigger] policies[i]).id(),
        ) && policy_in_range(policies[i]) by {
            if i > 0 {
                assert(policies[i] == tail[i - 1]);
            }
        }
        assert forall|i: int, j: int| 0 <= i < j < policies.len() implies (
        #[trigger] policies[i]).id() != (#[trigger] policies[j]).id() by {
            assert(policies[j] == tail[j - 1]);
            assert(!later.contains(tail[j - 1].id()));
            if i > 0 {
                assert(policies[i] == tail[i - 1]);
            }
        }
    }
}

/// Bytes that are read as policies are those policies written out, and what is
/// left behind them. Every field is in its range, and no two policies are of
/// the same kind.
pub proof fn law_qos_canonical(s: Seq<u8>, policies: Seq<QosPolicyView>, rest: Seq<u8>)
    requires
        spec_parse_qos(s) == (Ok::<Seq<QosPolicyView>, ProtocolErrorView>(policies), rest),
    ensures
        s == qos_bytes(policies) + rest,
        qos_valid(policies),
{
    lemma_policies_canonical(s.skip(1), s[0] as nat, Set::empty(), policies, rest);
    assert(policies.len() as int % 0x100 == s[0]);
    assert(s =~= seq![s[0]] + s.skip(1));
    assert(s =~= qos_bytes(policies) + rest);
}

// ---------------------------------------------------------------------------
// The normal form
// ---------------------------------------------------------------------------

/// A normal form holds no default policies, and normalizing it again changes
/// nothing.
pub proof fn law_normal_form_idempotent(policies: Seq<QosPolicyView>)
    ensures
        forall|i: int|
            0 <= i < normal_form(policies).len() ==> !(
            #[trigger] normal_form(policies)[i]).is_default(),
        normal_form(normal_form(policies)) == normal_form(policies),
    decreases policies.len(),
{
    reveal(Seq::filter);
    let nf = normal_form(policies);
    if policies.len() > 0 {
        let shorter = policies.drop_last();
        law_normal_form_idempotent(shorter);
        if !policies.last().is_default() {
            assert(nf == normal_form(shorter).push(policies.last()));
            assert(nf.drop_last() =~= normal_form(shorter));
            assert(nf.last() == policies.last());
        }
    }
}

/// A policy that is set to its default, wherever it stands, asks for what its
/// absence asks for.
pub proof fn law_explicit_default_is_omitted(
    before: Seq<QosPolicyView>,
    policy: QosPolicyView,
    after: Seq<QosPolicyView>,
)
    requires
        policy.is_default(),
    ensures
        normal_form(before + seq![policy] + after) == normal_form(before + after),
        normalized_same(before + seq![policy] + after, before + after),
        normalized_same(before + after, before + seq![policy] + after),
{
    reveal_with_fuel(Seq::filter, 2);
    let one = seq![policy];
    assert(one.drop_last() =~= Seq::<QosPolicyView>::empty());
    assert(normal_form(one) =~= Seq::<QosPolicyView>::empty());
    Seq::filter_distributes_over_add(before, one, kept());
    Seq::filter_distributes_over_add(before + one, after, kept());
    Seq::filter_distributes_over_add(before, after, kept());
    assert(normal_form(before) + normal_form(one) =~= normal_form(before));
}

/// Normalized equality holds between a set and itself, and between a set and
/// its normal form.
pub proof fn law_normalized_same_reflexive(policies: Seq<QosPolicyView>)
    ensures
        normalized_same(policies, policies),
        normalized_same(policies, normal_form(policies)),
        normalized_same(normal_form(policies), policies),
{
    law_normal_form_idempotent(policies);
}

proof fn lemma_normal_form_distinct(policies: Seq<QosPolicyView>)
    requires
        ids_distinct(policies),
    ensures
        ids_distinct(normal_form(policies)),
        normal_form(policies).no_duplicates(),
        forall|p: QosPolicyView| #[trigger]
            normal_form(policies).contains(p) ==> policies.contains(p),
    decreases policies.len(),
{
    reveal(Seq::filter);
    let nf = normal_form(policies);
    if policies.len() > 0 {
        let shorter = policies.drop_last();
        assert forall|i: int, j: int| 0 <= i < j < shorter.len() implies (
        #[trigger] shorter[i]).id() != (#[trigger] shorter[j]).id() by {
            assert(shorter[i] == policies[i] && shorter[j] == policies[j]);
        }
        lemma_normal_form_distinct(shorter);
        let snf = normal_form(shorter);
        assert forall|p: QosPolicyView| #[trigger] snf.contains(p) implies policies.contains(p)
            && p.id() != policies.last().id() by {
            assert(shorter.contains(p));
            let k = choose|k: int| 0 <= k < shorter.len() && shorter[k] == p;
            assert(policies[k] == p);
            assert(policies[k].id() != policies[policies.len() - 1].id());
        }
        if !policies.last().is_default() {
            assert(nf == snf.push(policies.last()));
            assert forall|i: int, j: int| 0 <= i < j < nf.len() implies (#[trigger] nf[i]).id()
                != (#[trigger] nf[j]).id() by {
                assert(nf[i] == snf[i]);
                assert(snf.contains(snf[i]));
                if j < snf.len() {
                    assert(nf[j] == snf[j]);
                }
            }
            assert forall|p: QosPolicyView| #[trigger] nf.contains(p) implies policies.contains(
                p,
            ) by {
                let k = choose|k: int| 0 <= k < nf.len() && nf[k] == p;
                if k < snf.len() {
                    assert(snf[k] == p);
                    assert(snf.contains(p));
                } else {
                    assert(policies[policies.len() - 1] == p);
                }
            }
        }
    }
}

/// Normalized equality is symmetric and transitive.
pub proof fn law_normalized_same_is_an_equivalence(
    a: Seq<QosPolicyView>,
    b: Seq<QosPolicyView>,
    c: Seq<QosPolicyView>,
)
    ensures
        normalized_same(a, b) <==> normalized_same(b, a),
        normalized_same(a, b) && normalized_same(b, c) ==> normalized_same(a, c),
{
}

/// Sets that are equal in the normalized sense have the same non-default
/// policies; for sets without two policies of a kind, such as every set that
/// was read from a payload, that is all it takes.
pub proof fn law_normalized_same_is_set_equality(a: Seq<QosPolicyView>, b: Seq<QosPolicyView>)
    ensures
        normalized_same(a, b) ==> normal_form(a).to_set() == normal_form(b).to_set(),
        ids_distinct(a) && ids_distinct(b) && normal_form(a).to_set() == normal_form(b).to_set()
            ==> normalized_same(a, b),
{
    broadcast use vstd::seq_lib::group_to_multiset_ensures;

    let na = normal_form(a);
    let nb = normal_form(b);
    if normalized_same(a, b) {
        assert forall|p: QosPolicyView| na.to_set().contains(p) <==> nb.to_set().contains(p) by {
            assert(na.contains(p) <==> na.to_multiset().count(p) > 0);
            assert(nb.contains(p) <==> nb.to_multiset().count(p) > 0);
        }
        assert(na.to_set() =~= nb.to_set());
    }
    if ids_distinct(a) && ids_distinct(b) && na.to_set() == nb.to_set() {
        lemma_normal_form_distinct(a);
        lemma_normal_form_distinct(b);
        na.lemma_multiset_has_no_duplicates();
        nb.lemma_multiset_has_no_duplicates();
        assert forall|p: QosPolicyView| na.to_multiset().count(p) == nb.to_multiset().count(p) by {
            assert(na.to_set().contains(p) <==> nb.to_set().contains(p));
            assert(na.contains(p) <==> na.to_multiset().count(p) > 0);
            assert(nb.contains(p) <==> nb.to_multiset().count(p) > 0);
            assert(na.to_multiset().contains(p) <==> na.contains(p));
            assert(nb.to_multiset().contains(p) <==> nb.contains(p));
        }
        assert(na.to_multiset() =~= nb.to_multiset());
    }
}

proof fn lemma_normal_form_multiset(policies: Seq<QosPolicyView>)
    ensures
        normal_form(policies).to_multiset() == policies.to_multiset().filter(kept()),
    decreases policies.len(),
{
    broadcast use vstd::multiset::group_multiset_axioms;
    broadcast use vstd::multiset::group_multiset_properties;
    broadcast use vstd::seq_lib::group_to_multiset_ensures;

    reveal(Seq::filter);
    if policies.len() == 0 {
        assert(normal_form(policies) =~= policies);
        assert(policies.to_multiset() =~= policies.to_multiset().filter(kept()));
    } else {
        let shorter = policies.drop_last();
        let last = policies.last();
        lemma_normal_form_multiset(shorter);
        assert(policies =~= shorter.push(last));
        assert(policies.to_multiset() =~= shorter.to_multiset().insert(last));
        assert(policies.to_multiset().filter(kept()) =~= if last.is_default() {
            shorter.to_multiset().filter(kept())
        } else {
            shorter.to_multiset().filter(kept()).insert(last)
        });
    }
}

/// Normalized equality does not depend on the order of the policies.
pub proof fn law_normalized_same_any_order(a: Seq<QosPolicyView>, b: Seq<QosPolicyView>)
    requires
        a.to_multiset() == b.to_multiset(),
    ensures
        normalized_same(a, b),
{
    lemma_normal_form_multiset(a);
    lemma_normal_form_multiset(b);
}

// ---------------------------------------------------------------------------
// Sizes
// ---------------------------------------------------------------------------

proof fn lemma_strings_bound(strings: Seq<Seq<char>>)
    requires
        forall|i: int| 0 <= i < strings.len() ==> string_fits(#[trigger] strings[i]),
    ensures
        concat(string_parts(strings)).len() <= 1_048_580 * strings.len(),
    decreases strings.len(),
{
    let parts = string_parts(strings);
    if strings.len() > 0 {
        let tail = strings.drop_first();
        assert forall|i: int| 0 <= i < tail.len() implies string_fits(#[trigger] tail[i]) by {
            assert(tail[i] == strings[i + 1]);
        }
        lemma_strings_bound(tail);
        assert(parts.drop_first() =~= string_parts(tail));
        assert(parts[0] == string_bytes(strings[0]));
        assert(string_fits(strings[0]));
        assert(string_bytes(strings[0]).len() <= 1_048_580);
    }
}

proof fn lemma_policy_bound(policy: QosPolicyView)
    requires
        policy_in_range(policy),
    ensures
        policy_bytes(policy).len() <= (if policy is Partition {
            267_387_902int
        } else {
            6int
        }),
{
    if policy is Partition {
        lemma_strings_bound(policy->partitions);
    }
}

proof fn lemma_policies_bound(policies: Seq<QosPolicyView>)
    requires
        qos_valid(policies),
    ensures
        concat(policy_parts(policies)).len() <= 6 * policies.len() + (if exists|i: int|
            0 <= i < policies.len() && #[trigger] policies[i] is Partition {
            267_387_902int
        } else {
            0int
        }),
    decreases policies.len(),
{
    let parts = policy_parts(policies);
    if policies.len() > 0 {
        let tail = policies.drop_first();
        assert forall|i: int| 0 <= i < tail.len() implies policy_in_range(#[trigger] tail[i]) by {
            assert(tail[i] == policies[i + 1]);
        }
        assert forall|i: int, j: int| 0 <= i < j < tail.len() implies (#[trigger] tail[i]).id()
            != (#[trigger] tail[j]).id() by {
            assert(tail[i] == policies[i + 1] && tail[j] == policies[j + 1]);
        }
        lemma_policies_bound(tail);
        lemma_policy_bound(policies[0]);
        assert(parts.drop_first() =~= policy_parts(tail));
        assert(parts[0] == policy_bytes(policies[0]));
        if exists|i: int| 0 <= i < tail.len() && #[trigger] tail[i] is Partition {
            let i = choose|i: int| 0 <= i < tail.len() && #[trigger] tail[i] is Partition;
            assert(tail[i] == policies[i + 1]);
            assert(policies[0].id() != policies[i + 1].id());
            assert(policies[i + 1] is Partition);
        } else if policies[0] is Partition {
            assert(policies[0] is Partition);
        }
    }
}

/// A set of policies that a payload can hold has fewer than 268 million bytes,
/// so it can always be written to a new buffer.
pub proof fn law_valid_qos_fits_a_buffer(policies: Seq<QosPolicyView>)
    requires
        qos_valid(policies),
    ensures
        qos_bytes(policies).len() <= 268_000_000 < buffer_limit(),
{
    lemma_distinct_ids_bound(policies);
    lemma_policies_bound(policies);
}

/// The normal form of a set of policies that a payload can hold is one that a
/// payload can hold.
pub proof fn law_normal_form_is_valid(policies: Seq<QosPolicyView>)
    requires
        qos_valid(policies),
    ensures
        qos_valid(normal_form(policies)),
{
    lemma_normal_form_distinct(policies);
    let nf = normal_form(policies);
    assert forall|i: int| 0 <= i < nf.len() implies policy_in_range(#[trigger] nf[i]) by {
        assert(nf.contains(nf[i]));
        let k = choose|k: int| 0 <= k < policies.len() && policies[k] == nf[i];
        assert(policy_in_range(policies[k]));
    }
}

} // verus!
