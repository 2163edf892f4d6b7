//! What holds of every policy that validation builds, and of the default policy.
use vstd::prelude::*;
use vstd::utf8::encode_utf8;

use crate::config::{build_from, build_spec, default_limits, in_range, key_of, SizeRange, DEFAULT_RETENTION_SECS};
use crate::duration::RetentionDuration;
use crate::nesting::{nesting_bound, MAX_NESTING};
use crate::loader::{limits_key, table_named, toml_document, toml_outcome};

verus! {

/// An entry is valid on its own: its duration parses and its bounds are ordered.
pub open spec fn entry_valid(e: (u64, u64, Seq<char>)) -> bool {
    &&& RetentionDuration::parsed(e.2) is Some
    &&& e.0 <= e.1
}

/// No two entries share a key.
pub open spec fn keys_distinct(entries: Seq<(u64, u64, Seq<char>)>) -> bool {
    forall|i: int, j: int|
        0 <= i < entries.len() && 0 <= j < entries.len() && i != j ==> key_of(entries[i]) != key_of(
            entries[j],
        )
}

/// Every entry is valid on its own and no two share a key.
pub open spec fn entries_valid(entries: Seq<(u64, u64, Seq<char>)>) -> bool {
    &&& forall|i: int| 0 <= i < entries.len() ==> entry_valid(#[trigger] entries[i])
    &&& keys_distinct(entries)
}

/// Validation from `limits` succeeds exactly when the entries are valid and
/// none of their keys is in `limits` already.
proof fn lemma_build_from_ok(limits: Map<SizeRange, RetentionDuration>, entries: Seq<(u64, u64, Seq<char>)>)
    ensures
        build_from(limits, entries) is Ok <==> entries_valid(entries) && forall|i: int|
            0 <= i < entries.len() ==> !limits.contains_key(key_of(#[trigger] entries[i])),
    decreases entries.len(),
{
    if entries.len() > 0 {
        let e = entries[0];
        let rest = entries.drop_first();
        assert forall|i: int| 0 <= i < rest.len() implies rest[i] == entries[i + 1] by {}
        match RetentionDuration::parsed(e.2) {
            None => {
                assert(!entry_valid(entries[0]));
            },
            Some(d) => {
                if e.0 > e.1 {
                    assert(!entry_valid(entries[0]));
                } else if limits.contains_key(key_of(e)) {
                    assert(limits.contains_key(key_of(entries[0])));
                } else {
                    let next = limits.insert(key_of(e), d);
                    lemma_build_from_ok(next, rest);
                    if build_from(next, rest) is Ok {
                        assert forall|i: int| 0 <= i < entries.len() implies entry_valid(#[trigger] entries[i]) by {
                            if i > 0 {
                                assert(entries[i] == rest[i - 1]);
                            }
                        }
                        assert forall|i: int, j: int|
                            0 <= i < entries.len() && 0 <= j < entries.len() && i != j implies key_of(entries[i]) != key_of(entries[j]) by {
                            if i > 0 && j > 0 {
                                assert(entries[i] == rest[i - 1]);
                                assert(entries[j] == rest[j - 1]);
                            } else if i > 0 {
                                assert(entries[i] == rest[i - 1]);
                                assert(next.contains_key(key_of(entries[j])));
                            } else {
                                assert(entries[j] == rest[j - 1]);
                                assert(next.contains_key(key_of(entries[i])));
                            }
                        }
                        assert forall|i: int| 0 <= i < entries.len() implies !limits.contains_key(key_of(#[trigger] entries[i])) by {
                            if i > 0 {
                                assert(entries[i] == rest[i - 1]);
                                assert(!next.contains_key(key_of(rest[i - 1])));
                            }
                        }
                    } else {
                        if entries_valid(entries) && forall|i: int|
                            0 <= i < entries.len() ==> !limits.contains_key(key_of(#[trigger] entries[i])) {
                            assert forall|i: int| 0 <= i < rest.len() implies entry_valid(#[trigger] rest[i]) by {
                                assert(entry_valid(entries[i + 1]));
                            }
                            assert forall|i: int, j: int|
                                0 <= i < rest.len() && 0 <= j < rest.len() && i != j implies key_of(rest[i]) != key_of(rest[j]) by {
                                assert(key_of(entries[i + 1]) != key_of(entries[j + 1]));
                            }
                            assert forall|i: int| 0 <= i < rest.len() implies !next.contains_key(key_of(#[trigger] rest[i])) by {
                                assert(key_of(entries[i + 1]) != key_of(entries[0]));
                                assert(!limits.contains_key(key_of(entries[i + 1])));
                            }
                            assert(false);
                        }
                    }
                }
            },
        }
    }
}

/// Validation of valid entries from a map without their keys yields that
/// map with each entry's key bound to its parsed duration.
proof fn lemma_build_from_contents(limits: Map<SizeRange, RetentionDuration>, entries: Seq<(u64, u64, Seq<char>)>)
    requires
        limits.dom().finite(),
        entries_valid(entries),
        forall|i: int| 0 <= i < entries.len() ==> !limits.contains_key(key_of(#[trigger] entries[i])),
    ensures
        build_from(limits, entries) matches Ok(m) && {
            &&& m.dom().finite()
            &&& m.len() == limits.len() + entries.len()
            &&& forall|k: SizeRange| #[trigger] limits.contains_key(k) ==> m.contains_key(k) && m[k] == limits[k]
            &&& forall|i: int| 0 <= i < entries.len() ==> m.contains_key(key_of(#[trigger] entries[i]))
                && Some(m[key_of(entries[i])]) == RetentionDuration::parsed(entries[i].2)
            &&& forall|k: SizeRange| #[trigger] m.contains_key(k) ==> limits.contains_key(k) || exists|i: int|
                0 <= i < entries.len() && key_of(#[trigger] entries[i]) == k
        },
    decreases entries.len(),
{
    if entries.len() > 0 {
        let e = entries[0];
        let rest = entries.drop_first();
        assert(entry_valid(entries[0]));
        let d = RetentionDuration::parsed(e.2)->0;
        let next = limits.insert(key_of(e), d);
        assert forall|i: int| 0 <= i < rest.len() implies entry_valid(#[trigger] rest[i]) by {
            assert(rest[i] == entries[i + 1]);
            assert(entry_valid(entries[i + 1]));
        }
        assert forall|i: int, j: int|
            0 <= i < rest.len() && 0 <= j < rest.len() && i != j implies key_of(rest[i]) != key_of(rest[j]) by {
            assert(rest[i] == entries[i + 1]);
            assert(rest[j] == entries[j + 1]);
        }
        assert forall|i: int| 0 <= i < rest.len() implies !next.contains_key(key_of(#[trigger] rest[i])) by {
            assert(rest[i] == entries[i + 1]);
            assert(key_of(entries[i + 1]) != key_of(entries[0]));
            assert(!limits.contains_key(key_of(entries[i + 1])));
        }
        assert(!limits.contains_key(key_of(entries[0])));
        assert(next.dom() == limits.dom().insert(key_of(e)));
        assert(next.len() == limits.len() + 1);
        lemma_build_from_contents(next, rest);
        assert(build_from(limits, entries) == build_from(next, rest));
        let m = build_from(next, rest)->Ok_0;
        assert forall|k: SizeRange| #[trigger] m.contains_key(k) implies limits.contains_key(k) || exists|i: int|
            0 <= i < entries.len() && key_of(#[trigger] entries[i]) == k by {
            if !limits.contains_key(k) {
                if k == key_of(e) {
                    assert(key_of(entries[0]) == k);
                } else {
                    assert(!next.contains_key(k));
                    let j = choose|j: int| 0 <= j < rest.len() && key_of(#[trigger] rest[j]) == k;
                    assert(entries[j + 1] == rest[j]);
                }
            }
        }
        assert forall|k: SizeRange| #[trigger] limits.contains_key(k) implies m.contains_key(k) && m[k] == limits[k] by {
            assert(next.contains_key(k));
        }
        assert forall|i: int| 0 <= i < entries.len() implies m.contains_key(key_of(#[trigger] entries[i]))
            && Some(m[key_of(entries[i])]) == RetentionDuration::parsed(entries[i].2) by {
            if i > 0 {
                assert(entries[i] == rest[i - 1]);
            } else {
                assert(next.contains_key(key_of(e)));
            }
        }
    } else {
        assert(build_from(limits, entries) == Ok::<Map<SizeRange, RetentionDuration>, crate::config::Rejection>(limits));
    }
}

/// Every size, from zero to the largest, falls in exactly one range of the
/// default policy, and that range keeps a file one day.
pub proof fn lemma_default_covers_every_size(size: u64)
    ensures
        default_limits().dom().filter(|k: SizeRange| in_range(k, size)) == set![(0u64, u64::MAX)],
        default_limits()[(0u64, u64::MAX)] == (RetentionDuration { secs: DEFAULT_RETENTION_SECS, nanos: 0 }),
{
    assert(default_limits().dom().filter(|k: SizeRange| in_range(k, size)) =~= set![(0u64, u64::MAX)]);
}

/// Entries that are each valid and have pairwise distinct keys build a policy
/// with exactly one range per entry, each holding that entry's parsed duration.
pub proof fn lemma_build_round_trip(entries: Seq<(u64, u64, Seq<char>)>)
    requires
        entries_valid(entries),
    ensures
        build_spec(entries) matches Ok(m) && {
            &&& m.len() == entries.len()
            &&& forall|i: int| 0 <= i < entries.len() ==> m.contains_key(key_of(#[trigger] entries[i]))
                && Some(m[key_of(entries[i])]) == RetentionDuration::parsed(entries[i].2)
        },
{
    lemma_build_from_contents(Map::empty(), entries);
}

/// A configuration text within the nesting bound that reads as a document whose `limits` list holds
/// valid entries with pairwise distinct keys gives a policy with exactly one
/// range per entry, each holding that entry's parsed duration.
pub proof fn lemma_config_round_trip(text: Seq<char>)
    requires
        nesting_bound(encode_utf8(text)) <= MAX_NESTING,
        toml_document(text) matches Some(doc) && table_named(doc, limits_key()) matches Some(entries)
            && entries_valid(entries),
    ensures
        toml_outcome(text) matches Some(Ok(m)) && {
            let entries = table_named(toml_document(text)->0, limits_key())->0;
            &&& m.len() == entries.len()
            &&& forall|i: int| 0 <= i < entries.len() ==> m.contains_key(key_of(#[trigger] entries[i]))
                && Some(m[key_of(entries[i])]) == RetentionDuration::parsed(entries[i].2)
        },
{
    lemma_build_round_trip(table_named(toml_document(text)->0, limits_key())->0);
}

/// Whether validation succeeds does not depend on the order of the entries,
/// and where it succeeds, neither does the policy it builds.
pub proof fn lemma_build_outcome_order_independent(a: Seq<(u64, u64, Seq<char>)>, b: Seq<(u64, u64, Seq<char>)>)
    requires
        a.to_multiset() == b.to_multiset(),
    ensures
        build_spec(a) is Ok <==> build_spec(b) is Ok,
        build_spec(a) is Ok ==> build_spec(a) == build_spec(b),
{
    lemma_build_from_ok(Map::empty(), a);
    lemma_build_from_ok(Map::empty(), b);
    if entries_valid(a) {
        lemma_valid_permutation(a, b);
    }
    if entries_valid(b) {
        lemma_valid_permutation(b, a);
    }
    if entries_valid(a) {
        lemma_same_policy(a, b);
    }
}

/// Valid entries build the same policy in any order.
proof fn lemma_same_policy(a: Seq<(u64, u64, Seq<char>)>, b: Seq<(u64, u64, Seq<char>)>)
    requires
        a.to_multiset() == b.to_multiset(),
        entries_valid(a),
        entries_valid(b),
    ensures
        build_spec(a) == build_spec(b),
{
    broadcast use vstd::seq_lib::to_multiset_contains;

    lemma_build_from_contents(Map::empty(), a);
    lemma_build_from_contents(Map::empty(), b);
    let ma = build_spec(a)->Ok_0;
    let mb = build_spec(b)->Ok_0;
    assert forall|k: SizeRange| ma.contains_key(k) implies mb.contains_key(k) && ma[k] == mb[k] by {
        let i = choose|i: int| 0 <= i < a.len() && key_of(#[trigger] a[i]) == k;
        assert(a.contains(a[i]));
        assert(a.to_multiset().count(a[i]) > 0);
        assert(b.contains(a[i]));
        let j = choose|j: int| 0 <= j < b.len() && b[j] == a[i];
        assert(mb.contains_key(key_of(b[j])));
    }
    assert forall|k: SizeRange| mb.contains_key(k) implies ma.contains_key(k) by {
        let j = choose|j: int| 0 <= j < b.len() && key_of(#[trigger] b[j]) == k;
        assert(b.contains(b[j]));
        assert(b.to_multiset().count(b[j]) > 0);
        assert(a.contains(b[j]));
        let i = choose|i: int| 0 <= i < a.len() && a[i] == b[j];
        assert(ma.contains_key(key_of(a[i])));
    }
    assert(ma =~= mb);
}

/// Validity carries over from a sequence of entries to any reordering of it.
proof fn lemma_valid_permutation(a: Seq<(u64, u64, Seq<char>)>, b: Seq<(u64, u64, Seq<char>)>)
    requires
        a.to_multiset() == b.to_multiset(),
        entries_valid(a),
    ensures
        entries_valid(b),
{
    broadcast use vstd::seq_lib::to_multiset_contains;

    assert(a.no_duplicates()) by {
        assert forall|i: int, j: int| 0 <= i < a.len() && 0 <= j < a.len() && i != j implies a[i] != a[j] by {
            assert(key_of(a[i]) != key_of(a[j]));
        }
    }
    a.lemma_multiset_has_no_duplicates();
    b.lemma_multiset_has_no_duplicates_conv();
    assert forall|i: int| 0 <= i < b.len() implies entry_valid(#[trigger] b[i]) by {
        assert(b.contains(b[i]));
        assert(b.to_multiset().count(b[i]) > 0);
        assert(a.contains(b[i]));
        let p = choose|p: int| 0 <= p < a.len() && a[p] == b[i];
        assert(entry_valid(a[p]));
    }
    assert forall|i: int, j: int|
        0 <= i < b.len() && 0 <= j < b.len() && i != j implies key_of(b[i]) != key_of(b[j]) by {
        assert(b.contains(b[i]));
        assert(b.contains(b[j]));
        assert(b.to_multiset().count(b[i]) > 0);
        assert(b.to_multiset().count(b[j]) > 0);
        assert(a.contains(b[i]));
        assert(a.contains(b[j]));
        let p = choose|p: int| 0 <= p < a.len() && a[p] == b[i];
        let q = choose|q: int| 0 <= q < a.len() && a[q] == b[j];
        assert(b[i] != b[j]);
        assert(p != q);
        assert(key_of(a[p]) != key_of(a[q]));
    }
}

} // verus!
