use blueflame::procs::{descendants_including, pid_descends_from};

fn table() -> Vec<(u32, Option<u32>)> {
    vec![(1, None), (10, Some(1)), (11, Some(10)), (12, Some(11)), (20, Some(1)), (30, None), (31, Some(30))]
}

#[test]
fn descent_within_the_hop_limit() {
    let t = table();
    assert!(pid_descends_from(&t, 12, 10));
    assert!(pid_descends_from(&t, 12, 12));
    assert!(pid_descends_from(&t, 12, 1));
    assert!(!pid_descends_from(&t, 31, 1));
    assert!(!pid_descends_from(&t, 99, 1));
}

#[test]
fn long_chains_are_cut_at_eight_hops() {
    let t: Vec<(u32, Option<u32>)> = (0..20u32).map(|i| (i, if i == 0 { None } else { Some(i - 1) })).collect();
    assert!(pid_descends_from(&t, 7, 0));
    assert!(!pid_descends_from(&t, 8, 0));
}

#[test]
fn descendants_include_root_and_its_tree() {
    let t = table();
    assert_eq!(descendants_including(&t, 10), vec![10, 11, 12]);
    assert_eq!(descendants_including(&t, 1), vec![1, 10, 11, 12, 20]);
    assert_eq!(descendants_including(&t, 99), Vec::<u32>::new());
}

#[test]
fn a_parent_cycle_does_not_hang() {
    let t = vec![(1, Some(2)), (2, Some(1)), (3, Some(2))];
    assert_eq!(descendants_including(&t, 9), Vec::<u32>::new());
    assert_eq!(descendants_including(&t, 2), vec![2, 1, 3]);
}
