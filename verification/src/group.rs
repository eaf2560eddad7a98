//! Grouping user records by their user id.
//!
//! A record carries a plain integer user id (wide enough for a 128-bit
//! identifier) and a data string. `group_records` buckets a batch of records
//! by id, keeping ids in order of first appearance and the records of each
//! id in input order; `records_for_user` answers the same question for a
//! single id through `itertools`' hash-map grouping.

use vstd::prelude::*;
use vstd::seq_lib::lemma_seq_contains_after_push;
use std::collections::HashMap;

verus! {

broadcast use vstd::std_specs::hash::group_hash_axioms, lemma_seq_contains_after_push;

/// One user record: a 128-bit user id held as a plain integer, plus its data.
#[derive(Clone, Debug)]
pub struct UserRecord {
    pub user_id: u128,
    pub data: String,
}

/// All records of one user, in input order.
pub struct UserGroup {
    pub user_id: u128,
    pub records: Vec<UserRecord>,
}

/// The records of `s` whose user id is `k`, in order.
pub open spec fn records_with_key(s: Seq<UserRecord>, k: u128) -> Seq<UserRecord>
    decreases s.len(),
{
    if s.len() == 0 {
        Seq::empty()
    } else {
        let rest = records_with_key(s.drop_last(), k);
        if s.last().user_id == k {
            rest.push(s.last())
        } else {
            rest
        }
    }
}

/// The distinct user ids of `s`, in order of first appearance.
pub open spec fn first_keys(s: Seq<UserRecord>) -> Seq<u128>
    decreases s.len(),
{
    if s.len() == 0 {
        Seq::empty()
    } else {
        let ks = first_keys(s.drop_last());
        if ks.contains(s.last().user_id) {
            ks
        } else {
            ks.push(s.last().user_id)
        }
    }
}

/// A user id is listed among the first-appearance keys exactly when some
/// record carries it.
pub proof fn lemma_key_listed_iff_present(s: Seq<UserRecord>, k: u128)
    ensures
        first_keys(s).contains(k) <==> records_with_key(s, k).len() > 0,
    decreases s.len(),
{
    if s.len() > 0 {
        lemma_key_listed_iff_present(s.drop_last(), k);
    }
}

/// The first-appearance keys are distinct.
pub proof fn lemma_first_keys_distinct(s: Seq<UserRecord>)
    ensures
        forall|i: int, j: int|
            0 <= i < j < first_keys(s).len() ==> first_keys(s)[i] != first_keys(s)[j],
    decreases s.len(),
{
    if s.len() > 0 {
        lemma_first_keys_distinct(s.drop_last());
        let ks = first_keys(s.drop_last());
        let a = s.last().user_id;
        if !ks.contains(a) {
            assert forall|i: int, j: int|
                0 <= i < j < ks.push(a).len() implies ks.push(a)[i] != ks.push(a)[j] by {
                if j == ks.len() {
                    if ks[i] == a {
                        assert(ks.contains(a));
                    }
                }
            }
        }
    }
}

/// A mutable slot of the group vector; the rest stays as it was.
fn group_slot<'a>(groups: &'a mut Vec<UserGroup>, j: usize) -> (g: &'a mut UserGroup)
    requires
        j < old(groups).len(),
    ensures
        *g == old(groups)@[j as int],
        final(groups)@ == old(groups)@.update(j as int, *final(g)),
{
    &mut groups[j]
}

/// Buckets the records by user id: one group per distinct id, ids in order
/// of first appearance, and within each group the records of that id in
/// input order.
pub fn group_records(records: Vec<UserRecord>) -> (groups: Vec<UserGroup>)
    ensures
        groups@.len() == first_keys(records@).len(),
        forall|t: int|
            0 <= t < groups@.len() ==> #[trigger] groups@[t].user_id == first_keys(records@)[t],
        forall|t: int|
            0 <= t < groups@.len() ==> #[trigger] groups@[t].records@ == records_with_key(
                records@,
                groups@[t].user_id,
            ),
{
    let ghost orig = records@;
    let mut rest = records;
    let ghost processed = Seq::<UserRecord>::empty();
    let mut groups: Vec<UserGroup> = Vec::new();
    while rest.len() > 0
        invariant
            orig == processed + rest@,
            groups@.len() == first_keys(processed).len(),
            forall|t: int|
                0 <= t < groups@.len() ==> #[trigger] groups@[t].user_id == first_keys(
                    processed,
                )[t],
            forall|t: int|
                0 <= t < groups@.len() ==> #[trigger] groups@[t].records@ == records_with_key(
                    processed,
                    groups@[t].user_id,
                ),
        decreases rest@.len(),
    {
        let x = rest.remove(0);
        let key = x.user_id;
        proof {
            assert(processed.push(x) + rest@ =~= orig);
            assert(processed.push(x).drop_last() =~= processed);
            lemma_first_keys_distinct(processed);
        }
        let ghost now = processed.push(x);
        let n = groups.len();
        let mut j: usize = 0;
        while j < n && groups[j].user_id != key
            invariant
                n == groups@.len(),
                j <= n,
                forall|t: int| 0 <= t < j ==> #[trigger] groups@[t].user_id != key,
            decreases n - j,
        {
            j = j + 1;
        }
        if j < n {
            // The id is already listed, so its group grows by this record
            // and the key list stays as it is.
            proof {
                assert(first_keys(processed).contains(key)) by {
                    assert(first_keys(processed)[j as int] == key);
                }
                assert(first_keys(now) == first_keys(processed));
            }
            let g = group_slot(&mut groups, j);
            g.records.push(x);
            proof {
                assert forall|t: int|
                    0 <= t < groups@.len() implies #[trigger] groups@[t].records@
                    == records_with_key(now, groups@[t].user_id) by {
                    if t != j {
                        assert(groups@[t].user_id != key);
                    }
                }
            }
        } else {
            // A fresh id: it joins the key list and opens a group of its own.
            proof {
                assert(!first_keys(processed).contains(key)) by {
                    if first_keys(processed).contains(key) {
                        let t = choose|t: int|
                            0 <= t < first_keys(processed).len() && first_keys(processed)[t]
                                == key;
                        assert(groups@[t].user_id == key);
                    }
                }
                assert(first_keys(now) == first_keys(processed).push(key));
                lemma_key_listed_iff_present(processed, key);
                assert(records_with_key(now, key) =~= Seq::<UserRecord>::empty().push(x));
            }
            let mut only = Vec::new();
            only.push(x);
            groups.push(UserGroup { user_id: key, records: only });
        }
        proof {
            processed = now;
        }
    }
    proof {
        assert(processed =~= orig);
    }
    groups
}

/// Relies on `itertools::Itertools::into_group_map_by`: the returned map
/// lists exactly the user ids that occur, each mapped to its records in
/// input order.
#[verifier::external_body]
fn group_map_by_user(records: Vec<UserRecord>) -> (m: HashMap<u128, Vec<UserRecord>>)
    ensures
        forall|k: u128| #[trigger] m@.contains_key(k) <==> records_with_key(records@, k).len() > 0,
        forall|k: u128| #[trigger] m@.contains_key(k) ==> m@[k]@ == records_with_key(records@, k),
{
    itertools::Itertools::into_group_map_by(records.into_iter(), |r: &UserRecord| r.user_id)
}

/// All records of one user, in input order; empty when the user does not
/// occur. The bucketing itself is done by `itertools`' hash-map grouping.
pub fn records_for_user(records: Vec<UserRecord>, user: u128) -> (r: Vec<UserRecord>)
    ensures
        r@ == records_with_key(records@, user),
{
    let ghost all = records@;
    let mut m = group_map_by_user(records);
    match m.remove(&user) {
        Some(g) => g,
        None => {
            proof {
                assert(records_with_key(all, user) =~= Seq::<UserRecord>::empty());
            }
            Vec::new()
        },
    }
}

} // verus!
