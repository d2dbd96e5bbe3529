//! Seeding helpers for local development and tests.
use vstd::prelude::*;

use crate::ctx::Ctx;
use crate::model;
use crate::model::base::{law_create_then_get, lemma_clash_witness, RowView, TableView};
use crate::model::bounty::{Bounty, BountyBmc, BountyForCreate, BOUNTY_UNIQUE, BOUNTY_WIDTH};
use crate::model::ModelManager;

verus! {

/// The values of a seeded bounty: every field holds its title.
pub open spec fn seed_values(title: Seq<char>) -> Seq<Seq<char>> {
    seq![title, title, title, title, title]
}

/// The rows that seeding `titles` adds, numbered from `first_id`.
pub open spec fn seeded_rows(first_id: i64, titles: Seq<&str>) -> Seq<RowView> {
    Seq::new(titles.len(), |i: int| RowView { id: (first_id + i) as i64, values: seed_values(titles[i]@) })
}

/// Whether seeding `titles` into `t` succeeds: the identifiers suffice and
/// every title is new, to the table and among the titles.
pub open spec fn seed_ok(t: TableView, titles: Seq<&str>) -> bool {
    &&& t.next_id + titles.len() <= i64::MAX
    &&& forall|i: int| 0 <= i < titles.len() ==> !t.clashes(Some(BOUNTY_UNIQUE), #[trigger] seed_values(titles[i]@), None)
    &&& forall|i: int, j: int| 0 <= i < j < titles.len() ==> titles[i]@ != titles[j]@
}

/// Creates one bounty per title, every field holding the title, and returns
/// them as stored. Stops at the first failure; the bounties created before it
/// stay.
pub fn seed_tasks(ctx: &Ctx, mm: &mut ModelManager, titles: &[&str]) -> (r: Result<Vec<Bounty>, model::Error>)
    requires
        old(mm).wf(),
    ensures
        final(mm).wf(),
        final(mm).projects() == old(mm).projects(),
        seed_ok(old(mm).bounties(), titles@) ==> r is Ok,
        r is Ok ==> seed_ok(old(mm).bounties(), titles@) && r->Ok_0@.map_values(|b: Bounty| b.row_view())
            == seeded_rows(old(mm).bounties().next_id, titles@) && final(mm).bounties().rows == old(
            mm,
        ).bounties().rows + seeded_rows(old(mm).bounties().next_id, titles@),
        exists|k: int|
            0 <= k <= titles@.len() && final(mm).bounties().rows == old(mm).bounties().rows + seeded_rows(
                old(mm).bounties().next_id,
                #[trigger] titles@.take(k),
            ),
{
    let ghost t0 = mm.bounties();
    let ghost n0 = t0.rows.len() as int;
    let mut bounties: Vec<Bounty> = Vec::new();
    let mut i: usize = 0;
    assert(seeded_rows(t0.next_id, titles@.take(0)) =~= Seq::<RowView>::empty());
    assert(t0.rows + Seq::<RowView>::empty() =~= t0.rows);
    while i < titles.len()
        invariant
            mm.wf(),
            mm.projects() == old(mm).projects(),
            t0 == old(mm).bounties(),
            n0 == t0.rows.len(),
            i <= titles@.len(),
            mm.bounties().rows == t0.rows + seeded_rows(t0.next_id, titles@.take(i as int)),
            mm.bounties().next_id == t0.next_id + i,
            bounties@.map_values(|b: Bounty| b.row_view()) == seeded_rows(t0.next_id, titles@.take(i as int)),
            t0.next_id + i <= i64::MAX,
            forall|j: int| 0 <= j < i ==> !t0.clashes(Some(BOUNTY_UNIQUE), #[trigger] seed_values(titles@[j]@), None),
            forall|j: int, l: int| 0 <= j < l < i ==> titles@[j]@ != titles@[l]@,
        decreases titles.len() - i,
    {
        let title = titles[i];
        let ghost cur = mm.bounties();
        let ghost vals = seed_values(title@);
        let ghost added = seeded_rows(t0.next_id, titles@.take(i as int));
        let c = BountyForCreate {
            bounty_title: String::from_str(title),
            bounty_assignee: String::from_str(title),
            bounty_reward: String::from_str(title),
            bounty_deliverables: String::from_str(title),
            bounty_description: String::from_str(title),
        };
        assert(c.values() =~= vals);
        let id = match BountyBmc::create(ctx, mm, c) {
            Ok(id) => id,
            Err(e) => {
                proof {
                    assert(mm.bounties().rows == t0.rows + seeded_rows(t0.next_id, titles@.take(i as int)));
                    if cur.clashes(Some(BOUNTY_UNIQUE), vals, None) {
                        let k = choose|k: int|
                            0 <= k < cur.rows.len() && Some(cur.rows[k].id) != None::<i64> && #[trigger] cur.rows[k].values[0]
                                == vals[0];
                        if k < n0 {
                            assert(cur.rows[k] == t0.rows[k]);
                            assert(t0.clashes(Some(BOUNTY_UNIQUE), vals, None));
                            assert(!seed_ok(t0, titles@));
                        } else {
                            let j = k - n0;
                            assert(cur.rows[k] == added[j]);
                            assert(titles@.take(i as int)[j] == titles@[j]);
                            assert(titles@[j]@ == title@);
                            assert(!seed_ok(t0, titles@));
                        }
                    } else {
                        assert(t0.next_id + i == i64::MAX);
                    }
                }
                return Err(e);
            },
        };
        proof {
            law_create_then_get(cur, BOUNTY_WIDTH as nat, Some(BOUNTY_UNIQUE), vals);
        }
        let bounty = match BountyBmc::get(ctx, mm, id) {
            Ok(b) => b,
            Err(e) => {
                return Err(e);
            },
        };
        let ghost before = bounties@;
        bounties.push(bounty);
        proof {
            let next = seeded_rows(t0.next_id, titles@.take(i as int + 1));
            assert(next =~= added.push(RowView { id: (t0.next_id + i) as i64, values: vals }));
            assert(mm.bounties().rows =~= t0.rows + next);
            assert(bounties@.map_values(|b: Bounty| b.row_view()) =~= next);
            assert(!t0.clashes(Some(BOUNTY_UNIQUE), vals, None)) by {
                if t0.clashes(Some(BOUNTY_UNIQUE), vals, None) {
                    let k = choose|k: int|
                        0 <= k < t0.rows.len() && Some(t0.rows[k].id) != None::<i64> && #[trigger] t0.rows[k].values[0]
                            == vals[0];
                    assert(cur.rows[k] == t0.rows[k]);
                }
            }
            assert forall|j: int| 0 <= j < i implies titles@[j]@ != titles@[i as int]@ by {
                assert(cur.rows[n0 + j] == added[j]);
                assert(titles@.take(i as int)[j] == titles@[j]);
                if titles@[j]@ == titles@[i as int]@ {
                    assert(added.len() == i);
                    assert(cur.rows.len() == n0 + i);
                    assert(0 <= n0 + j < cur.rows.len());
                    assert(cur.rows[n0 + j].values[BOUNTY_UNIQUE as int] == vals[BOUNTY_UNIQUE as int]);
                    lemma_clash_witness(cur, Some(BOUNTY_UNIQUE), vals, None, n0 + j);
                    assert(cur.clashes(Some(BOUNTY_UNIQUE), vals, None));
                }
            }
        }
        i += 1;
    }
    proof {
        assert(titles@.take(titles@.len() as int) =~= titles@);
    }
    Ok(bounties)
}

} // verus!
