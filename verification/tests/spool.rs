use csw::spool::sample_budget;

#[test]
fn the_budget_leaves_room_for_what_is_written_beside_the_spool() {
    assert_eq!(sample_budget(3000, false), 2000);
    assert_eq!(sample_budget(5000, true), 2000);
    for free in [0u64, 1, 7, 1000, 1 << 30] {
        for keep in [false, true] {
            let n = sample_budget(free, keep);
            let needed = n + n / 2 + if keep { n } else { 0 };
            assert!(
                needed <= free,
                "{n} samples do not fit in {free} (keep={keep})"
            );
        }
    }
}

#[test]
fn no_space_buys_no_samples() {
    assert_eq!(sample_budget(0, false), 0);
    assert_eq!(sample_budget(0, true), 0);
}
