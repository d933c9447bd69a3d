use rest_sync::listing::{FileInfo, Listing};
use rest_sync::plan::{plan_sync, TransferPlan};

fn listing(entries: &[(&str, u64)]) -> Listing {
    Listing {
        entries: entries
            .iter()
            .map(|(name, size)| FileInfo { name: name.to_string(), size: *size })
            .collect(),
    }
}

fn names(queue: &std::collections::VecDeque<String>) -> Vec<&str> {
    queue.iter().map(|name| name.as_str()).collect()
}

#[test]
fn plan_of_two_empty_listings_is_empty() {
    for prune in [false, true] {
        let plan = plan_sync(&Listing::empty(), &Listing::empty(), prune);
        assert!(plan.to_transfer.is_empty());
        assert!(plan.to_delete.is_empty());
    }
}

#[test]
fn plan_transfers_what_the_destination_lacks() {
    let source = listing(&[("aa", 1), ("bb", 2), ("cc", 3)]);
    let dest = listing(&[("bb", 2)]);
    let plan = plan_sync(&source, &dest, false);
    assert_eq!(names(&plan.to_transfer), vec!["aa", "cc"]);
    assert!(plan.to_delete.is_empty());
}

#[test]
fn plan_transfers_what_differs_in_size() {
    let source = listing(&[("aa", 1), ("bb", 2)]);
    let dest = listing(&[("aa", 1), ("bb", 20)]);
    let plan = plan_sync(&source, &dest, false);
    assert_eq!(names(&plan.to_transfer), vec!["bb"]);
    assert!(plan.to_delete.is_empty());
}

#[test]
fn plan_leaves_equal_entries_alone() {
    let source = listing(&[("aa", 1), ("bb", 2)]);
    let dest = listing(&[("bb", 2), ("aa", 1)]);
    for prune in [false, true] {
        let plan = plan_sync(&source, &dest, prune);
        assert_eq!(
            plan,
            TransferPlan { to_transfer: Default::default(), to_delete: Default::default() }
        );
    }
}

#[test]
fn plan_without_prune_deletes_nothing() {
    let source = listing(&[("aa", 1)]);
    let dest = listing(&[("aa", 1), ("zz", 9), ("yy", 8)]);
    let plan = plan_sync(&source, &dest, false);
    assert!(plan.to_transfer.is_empty());
    assert!(plan.to_delete.is_empty());
}

#[test]
fn plan_with_prune_deletes_what_the_source_lacks() {
    let source = listing(&[("aa", 1)]);
    let dest = listing(&[("zz", 9), ("aa", 1), ("yy", 8)]);
    let plan = plan_sync(&source, &dest, true);
    assert!(plan.to_transfer.is_empty());
    assert_eq!(names(&plan.to_delete), vec!["zz", "yy"]);
}

#[test]
fn prune_is_unaffected_by_size_mismatches() {
    let source = listing(&[("aa", 1), ("bb", 2)]);
    let dest = listing(&[("aa", 100), ("bb", 2), ("cc", 3)]);
    let plan = plan_sync(&source, &dest, true);
    assert_eq!(names(&plan.to_transfer), vec!["aa"]);
    assert_eq!(names(&plan.to_delete), vec!["cc"]);
}

#[test]
fn plan_for_an_empty_destination_transfers_everything_in_listing_order() {
    let source = listing(&[("cc", 3), ("aa", 1), ("bb", 2)]);
    let plan = plan_sync(&source, &Listing::empty(), true);
    assert_eq!(names(&plan.to_transfer), vec!["cc", "aa", "bb"]);
    assert!(plan.to_delete.is_empty());
}

#[test]
fn plan_for_an_empty_source_with_prune_deletes_everything() {
    let dest = listing(&[("cc", 3), ("aa", 1)]);
    let plan = plan_sync(&Listing::empty(), &dest, true);
    assert!(plan.to_transfer.is_empty());
    assert_eq!(names(&plan.to_delete), vec!["cc", "aa"]);
}

#[test]
fn plan_names_nothing_twice() {
    let source = listing(&[("aa", 1), ("aa", 1), ("bb", 2), ("aa", 1)]);
    let dest = listing(&[("zz", 1), ("zz", 1)]);
    let plan = plan_sync(&source, &dest, true);
    assert_eq!(names(&plan.to_transfer), vec!["aa", "bb"]);
    assert_eq!(names(&plan.to_delete), vec!["zz"]);
}

#[test]
fn the_last_line_for_a_name_decides_its_size() {
    let source = listing(&[("aa", 1), ("aa", 7)]);
    let matching = listing(&[("aa", 7)]);
    let stale = listing(&[("aa", 1)]);
    assert!(plan_sync(&source, &matching, false).to_transfer.is_empty());
    assert_eq!(names(&plan_sync(&source, &stale, false).to_transfer), vec!["aa"]);
    let dest = listing(&[("aa", 7), ("aa", 1)]);
    assert_eq!(names(&plan_sync(&source, &dest, false).to_transfer), vec!["aa"]);
}

#[test]
fn transfers_and_deletions_share_no_name() {
    let source = listing(&[("aa", 1), ("bb", 2), ("cc", 3)]);
    let dest = listing(&[("bb", 5), ("dd", 4), ("cc", 3)]);
    let plan = plan_sync(&source, &dest, true);
    for name in plan.to_transfer.iter() {
        assert!(!plan.to_delete.contains(name));
    }
    assert_eq!(names(&plan.to_transfer), vec!["aa", "bb"]);
    assert_eq!(names(&plan.to_delete), vec!["dd"]);
}

#[test]
fn planning_again_after_carrying_out_a_plan_finds_nothing() {
    let source = listing(&[("aa", 1), ("bb", 2), ("cc", 3)]);
    let dest = listing(&[("bb", 5), ("dd", 4), ("cc", 3)]);
    for prune in [false, true] {
        let plan = plan_sync(&source, &dest, prune);
        let mut after: Vec<FileInfo> = dest
            .entries
            .iter()
            .filter(|info| !plan.to_delete.contains(&info.name))
            .filter(|info| !plan.to_transfer.contains(&info.name))
            .cloned()
            .collect();
        for name in plan.to_transfer.iter() {
            let size = source.entries.iter().find(|info| &info.name == name).unwrap().size;
            after.push(FileInfo { name: name.clone(), size });
        }
        let second = plan_sync(&source, &Listing { entries: after }, prune);
        assert!(second.to_transfer.is_empty());
        assert!(second.to_delete.is_empty());
    }
}

#[test]
fn snapshot_lookup_finds_the_last_size() {
    let sizes = listing(&[("aa", 1), ("bb", 2), ("aa", 3)]).sizes();
    assert_eq!(sizes.get("aa"), Some(&3));
    assert_eq!(sizes.get("bb"), Some(&2));
    assert_eq!(sizes.get("cc"), None);
    assert_eq!(sizes.len(), 2);
}
