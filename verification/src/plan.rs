//! The reconciliation planner: what to transfer and what to delete, from the
//! listings of one category at source and destination.

use vstd::prelude::*;
use vstd::hash_map::StringHashMap;
use std::collections::VecDeque;
use crate::listing::{lemma_snapshot_names, names, snapshot, Entry, Listing};

verus! {

/// The work that brings one category of the destination in line with the
/// source: names to copy there, and names to remove there.
#[derive(Clone, Debug, PartialEq, Eq)]
pub struct TransferPlan {
    /// Objects to copy from source to destination, in the order of the
    /// source listing.
    pub to_transfer: VecDeque<String>,
    /// Objects to remove from the destination, in the order of the
    /// destination listing. Empty unless pruning was asked for.
    pub to_delete: VecDeque<String>,
}

/// What a `TransferPlan` holds, as plain values.
pub struct PlanView {
    pub to_transfer: Seq<Seq<char>>,
    pub to_delete: Seq<Seq<char>>,
}

/// The names that a queue of strings holds, in order.
pub open spec fn queued(queue: Seq<String>) -> Seq<Seq<char>> {
    queue.map_values(|name: String| name@)
}

impl View for TransferPlan {
    type V = PlanView;

    open spec fn view(&self) -> PlanView {
        PlanView { to_transfer: queued(self.to_transfer@), to_delete: queued(self.to_delete@) }
    }
}

/// The names that the source holds and the destination lacks, or holds with
/// another declared size.
pub open spec fn stale(source: Map<Seq<char>, u64>, dest: Map<Seq<char>, u64>) -> Set<Seq<char>> {
    Set::new(
        |name: Seq<char>|
            source.contains_key(name) && (!dest.contains_key(name) || dest[name] != source[name]),
    )
}

/// The names that the destination holds and the source does not.
pub open spec fn surplus(source: Map<Seq<char>, u64>, dest: Map<Seq<char>, u64>) -> Set<
    Seq<char>,
> {
    Set::new(|name: Seq<char>| dest.contains_key(name) && !source.contains_key(name))
}

/// The members of `wanted` among `listed`, each once, in the order in which
/// `listed` first mentions them.
pub open spec fn pick(listed: Seq<Seq<char>>, wanted: Set<Seq<char>>) -> Seq<Seq<char>>
    decreases listed.len(),
{
    if listed.len() == 0 {
        Seq::empty()
    } else {
        let before = pick(listed.drop_last(), wanted);
        let name = listed.last();
        if wanted.contains(name) && !before.contains(name) {
            before.push(name)
        } else {
            before
        }
    }
}

/// The plan for one category, given both listings and the prune flag.
pub open spec fn plan_for(source: Seq<Entry>, dest: Seq<Entry>, prune: bool) -> PlanView {
    PlanView {
        to_transfer: pick(names(source), stale(snapshot(source), snapshot(dest))),
        to_delete: if prune {
            pick(names(dest), surplus(snapshot(source), snapshot(dest)))
        } else {
            Seq::empty()
        },
    }
}

/// `pick` yields every listed member of `wanted`, nothing else, and nothing
/// twice.
pub proof fn lemma_pick_selects(listed: Seq<Seq<char>>, wanted: Set<Seq<char>>)
    ensures
        pick(listed, wanted).no_duplicates(),
        forall|name: Seq<char>|
            pick(listed, wanted).contains(name) <==> listed.contains(name) && wanted.contains(
                name,
            ),
    decreases listed.len(),
{
    if listed.len() > 0 {
        let front = listed.drop_last();
        let before = pick(front, wanted);
        let last = listed.last();
        lemma_pick_selects(front, wanted);
        assert forall|name: Seq<char>|
            pick(listed, wanted).contains(name) <==> listed.contains(name) && wanted.contains(
                name,
            ) by {
            if listed.contains(name) {
                let at = choose|at: int| 0 <= at < listed.len() && listed[at] == name;
                if at < front.len() {
                    assert(front[at] == name);
                }
            }
            if front.contains(name) {
                let at = choose|at: int| 0 <= at < front.len() && front[at] == name;
                assert(listed[at] == name);
            }
            assert(listed[listed.len() - 1] == last);
            if before.contains(name) {
                let at = choose|at: int| 0 <= at < before.len() && before[at] == name;
                if wanted.contains(last) && !before.contains(last) {
                    assert(before.push(last)[at] == name);
                }
            }
            if wanted.contains(last) && !before.contains(last) {
                assert(before.push(last)[before.len() as int] == last);
                if before.push(last).contains(name) {
                    let at = choose|at: int|
                        0 <= at < before.push(last).len() && before.push(last)[at] == name;
                    if at < before.len() {
                        assert(before[at] == name);
                    }
                }
            }
        }
    }
}

/// The plan is the difference of the two snapshots: it transfers exactly
/// the names of the source that the destination lacks or holds with another
/// declared size; with pruning it deletes exactly the names of the
/// destination that the source lacks, whatever the declared sizes; without
/// pruning it deletes nothing. No name occurs twice, and no name is both
/// transferred and deleted.
pub proof fn lemma_plan_is_the_difference(source: Seq<Entry>, dest: Seq<Entry>, prune: bool)
    ensures
        plan_for(source, dest, prune).to_transfer.no_duplicates(),
        plan_for(source, dest, prune).to_delete.no_duplicates(),
        forall|name: Seq<char>| #[trigger]
            plan_for(source, dest, prune).to_transfer.contains(name) <==> snapshot(
                source,
            ).contains_key(name) && (!snapshot(dest).contains_key(name) || snapshot(dest)[name]
                != snapshot(source)[name]),
        forall|name: Seq<char>| #[trigger]
            plan_for(source, dest, prune).to_delete.contains(name) <==> prune && snapshot(
                dest,
            ).contains_key(name) && !snapshot(source).contains_key(name),
        !prune ==> plan_for(source, dest, prune).to_delete.len() == 0,
        forall|name: Seq<char>|
            !(#[trigger] plan_for(source, dest, prune).to_transfer.contains(name) && plan_for(
                source,
                dest,
                prune,
            ).to_delete.contains(name)),
{
    let plan = plan_for(source, dest, prune);
    let held = snapshot(source);
    let present = snapshot(dest);
    lemma_pick_selects(names(source), stale(held, present));
    lemma_pick_selects(names(dest), surplus(held, present));
    lemma_snapshot_names(source);
    lemma_snapshot_names(dest);
    assert forall|name: Seq<char>|
        plan.to_transfer.contains(name) <==> held.contains_key(name) && (!present.contains_key(
            name,
        ) || present[name] != held[name]) by {
        assert(held.dom().contains(name) <==> names(source).to_set().contains(name));
        assert(stale(held, present).contains(name) ==> held.contains_key(name));
    }
    assert forall|name: Seq<char>|
        plan.to_delete.contains(name) <==> prune && present.contains_key(name)
            && !held.contains_key(name) by {
        assert(present.dom().contains(name) <==> names(dest).to_set().contains(name));
        assert(surplus(held, present).contains(name) ==> present.contains_key(name));
    }
}

/// What the destination holds once a plan has been carried out: the names
/// to delete are gone, and the names to transfer are there with the size that
/// the source declares.
pub open spec fn carried_out(
    source: Map<Seq<char>, u64>,
    dest: Map<Seq<char>, u64>,
    plan: PlanView,
) -> Map<Seq<char>, u64> {
    Map::new(
        |name: Seq<char>|
            plan.to_transfer.contains(name) || (dest.contains_key(name) && !plan.to_delete.contains(
                name,
            )),
        |name: Seq<char>|
            if plan.to_transfer.contains(name) {
                source[name]
            } else {
                dest[name]
            },
    )
}

/// Planning is idempotent: once a plan has been carried out against an
/// unchanged source, planning again finds nothing to transfer and nothing to
/// delete.
pub proof fn lemma_second_plan_is_empty(
    source: Seq<Entry>,
    dest: Seq<Entry>,
    after: Seq<Entry>,
    prune: bool,
)
    requires
        snapshot(after) == carried_out(
            snapshot(source),
            snapshot(dest),
            plan_for(source, dest, prune),
        ),
    ensures
        plan_for(source, after, prune).to_transfer.len() == 0,
        plan_for(source, after, prune).to_delete.len() == 0,
{
    let first = plan_for(source, dest, prune);
    let second = plan_for(source, after, prune);
    lemma_plan_is_the_difference(source, dest, prune);
    lemma_plan_is_the_difference(source, after, prune);
    if second.to_transfer.len() > 0 {
        assert(second.to_transfer.contains(second.to_transfer[0]));
    }
    if second.to_delete.len() > 0 {
        assert(second.to_delete.contains(second.to_delete[0]));
    }
}

/// A destination that already lists every name of the source with the same
/// declared size needs no transfer, and one that lists nothing else needs no
/// deletion.
pub proof fn lemma_mirror_plans_nothing(source: Seq<Entry>, dest: Seq<Entry>, prune: bool)
    requires
        snapshot(dest) == snapshot(source),
    ensures
        plan_for(source, dest, prune).to_transfer.len() == 0,
        plan_for(source, dest, prune).to_delete.len() == 0,
{
    let plan = plan_for(source, dest, prune);
    lemma_plan_is_the_difference(source, dest, prune);
    if plan.to_transfer.len() > 0 {
        assert(plan.to_transfer.contains(plan.to_transfer[0]));
    }
    if plan.to_delete.len() > 0 {
        assert(plan.to_delete.contains(plan.to_delete[0]));
    }
}

/// Picks from `listing`, in order and each once, the names for which
/// `sizes_here` and `sizes_there` disagree: with `missing_only` unset, the
/// names that `sizes_here` holds and `sizes_there` lacks or holds with
/// another size; with `missing_only` set, the names that `sizes_here` holds
/// and `sizes_there` lacks.
fn select(
    listing: &Listing,
    sizes_here: &StringHashMap<u64>,
    sizes_there: &StringHashMap<u64>,
    missing_only: bool,
) -> (chosen: VecDeque<String>)
    ensures
        queued(chosen@) == pick(
            names(listing@),
            if missing_only {
                surplus(sizes_there@, sizes_here@)
            } else {
                stale(sizes_here@, sizes_there@)
            },
        ),
{
    let ghost wanted = if missing_only {
        surplus(sizes_there@, sizes_here@)
    } else {
        stale(sizes_here@, sizes_there@)
    };
    let mut chosen: VecDeque<String> = VecDeque::new();
    let mut taken: StringHashMap<bool> = StringHashMap::new();
    let count: usize = listing.entries.len();
    let mut at: usize = 0;
    while at < count
        invariant
            count == listing.entries.len(),
            at <= count,
            wanted == (if missing_only {
                surplus(sizes_there@, sizes_here@)
            } else {
                stale(sizes_here@, sizes_there@)
            }),
            queued(chosen@) == pick(names(listing@).take(at as int), wanted),
            forall|name: Seq<char>| taken@.contains_key(name) <==> queued(chosen@).contains(name),
        decreases count - at,
    {
        let info = &listing.entries[at];
        let name: &str = info.name.as_str();
        let differs = match sizes_here.get(name) {
            None => false,
            Some(here) => match sizes_there.get(name) {
                None => true,
                Some(there) => !missing_only && *there != *here,
            },
        };
        proof {
            let upto = names(listing@).take(at + 1);
            assert(upto.drop_last() =~= names(listing@).take(at as int));
            assert(differs == wanted.contains(name@));
        }
        if differs && !taken.contains_key(name) {
            let ghost before = queued(chosen@);
            chosen.push_back(info.name.clone());
            taken.insert(info.name.clone(), true);
            proof {
                assert(queued(chosen@) =~= before.push(name@));
                assert forall|other: Seq<char>|
                    taken@.contains_key(other) <==> queued(chosen@).contains(other) by {
                    if before.contains(other) {
                        let at = choose|at: int| 0 <= at < before.len() && before[at] == other;
                        assert(before.push(name@)[at] == other);
                    }
                    assert(before.push(name@)[before.len() as int] == name@);
                    if before.push(name@).contains(other) {
                        let at = choose|at: int|
                            0 <= at < before.push(name@).len() && before.push(name@)[at] == other;
                        if at < before.len() {
                            assert(before[at] == other);
                        }
                    }
                }
            }
        }
        at += 1;
    }
    assert(names(listing@).take(count as int) =~= names(listing@));
    chosen
}

/// Plans the reconciliation of one category.
///
/// Every name of the source listing that the destination lacks, or lists
/// with another declared size, is to be transferred. With `prune`, every
/// name of the destination listing that the source lacks is to be deleted;
/// without it nothing is. Names that both sides list with the same declared
/// size are left alone.
pub fn plan_sync(source: &Listing, dest: &Listing, prune: bool) -> (plan: TransferPlan)
    ensures
        plan@ == plan_for(source@, dest@, prune),
        plan@.to_transfer.no_duplicates(),
        plan@.to_delete.no_duplicates(),
        forall|name: Seq<char>| #[trigger]
            plan@.to_transfer.contains(name) <==> snapshot(source@).contains_key(name) && (
            !snapshot(dest@).contains_key(name) || snapshot(dest@)[name] != snapshot(
                source@,
            )[name]),
        forall|name: Seq<char>| #[trigger]
            plan@.to_delete.contains(name) <==> prune && snapshot(dest@).contains_key(name)
                && !snapshot(source@).contains_key(name),
{
    let held = source.sizes();
    let present = dest.sizes();
    let to_transfer = select(source, &held, &present, false);
    let to_delete = if prune {
        select(dest, &present, &held, true)
    } else {
        let nothing: VecDeque<String> = VecDeque::new();
        assert(queued(nothing@) =~= Seq::<Seq<char>>::empty());
        nothing
    };
    proof {
        lemma_plan_is_the_difference(source@, dest@, prune);
    }
    TransferPlan { to_transfer, to_delete }
}

} // verus!
