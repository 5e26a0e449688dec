use infoclimat_pipelines::planning::{
    build_plan, tail_failures_are_tolerable, Package, MAX_TAIL_FAILURES_TOLERATED,
};

#[test]
fn package_api_ids_match_meteofrance_spec() {
    assert_eq!(Package::Sp1.as_api_id(), "SP1");
    assert_eq!(Package::Sp2.as_api_id(), "SP2");
    assert_eq!(Package::Sp3.as_api_id(), "SP3");
}

#[test]
fn build_plan_48h_three_packages_yields_147_items() {
    let plan = build_plan(48, &[Package::Sp1, Package::Sp2, Package::Sp3]);
    // 49 leadtimes (0..=48) × 3 packages
    assert_eq!(plan.len(), 49 * 3);
}

#[test]
fn build_plan_leadtimes_are_zero_to_horizon_inclusive() {
    let plan = build_plan(48, &[Package::Sp1]);
    let leads: Vec<u32> = plan.iter().map(|(_, l)| *l).collect();
    assert_eq!(leads.first().copied(), Some(0));
    assert_eq!(leads.last().copied(), Some(48));
    assert_eq!(leads.len(), 49);
    for win in leads.windows(2) {
        assert_eq!(win[1], win[0] + 1);
    }
}

#[test]
fn build_plan_zero_packages_returns_empty() {
    assert!(build_plan(48, &[]).is_empty());
}

#[test]
fn build_plan_zero_horizon_yields_only_lead_0() {
    let plan = build_plan(0, &[Package::Sp1]);
    assert_eq!(plan.len(), 1);
    assert_eq!(plan[0].1, 0);
}

#[test]
fn build_plan_orders_by_package_then_leadtime() {
    let plan = build_plan(2, &[Package::Sp2, Package::Sp1]);
    assert_eq!(
        plan,
        vec![
            (Package::Sp2, 0),
            (Package::Sp2, 1),
            (Package::Sp2, 2),
            (Package::Sp1, 0),
            (Package::Sp1, 1),
            (Package::Sp1, 2),
        ]
    );
}

#[test]
fn package_display_text_is_api_id() {
    assert_eq!(Package::Sp3.api_id_string(), "SP3".to_string());
}

#[test]
fn tail_tolerable_when_no_failures() {
    assert!(tail_failures_are_tolerable(Some(48), &[], 6));
}

#[test]
fn tail_tolerable_when_only_last_leadtime_missing() {
    // Written 0..=47, leadtime 48 missing (late publication).
    assert!(tail_failures_are_tolerable(Some(47), &[48], 6));
}

#[test]
fn tail_tolerable_for_a_few_contiguous_tail_leadtimes() {
    // Written 0..=45, leadtimes 46/47/48 missing.
    assert!(tail_failures_are_tolerable(Some(45), &[46, 47, 48], 6));
}

#[test]
fn tail_not_tolerable_for_interior_hole() {
    // Written up to 48 but 47 missing: an interior hole, not a tail.
    assert!(!tail_failures_are_tolerable(Some(48), &[47], 6));
}

#[test]
fn tail_not_tolerable_when_too_many_missing() {
    // Nearly empty run (only H0 written, 1..=48 missing): above the threshold.
    let failed: Vec<u32> = (1..=48).collect();
    assert!(!tail_failures_are_tolerable(Some(0), &failed, 6));
}

#[test]
fn tail_not_tolerable_when_nothing_written() {
    assert!(!tail_failures_are_tolerable(None, &[1, 2, 3], 6));
}

#[test]
fn tail_tolerable_at_exactly_the_threshold() {
    let failed: Vec<u32> = (43..=48).collect();
    assert_eq!(failed.len() as u32, MAX_TAIL_FAILURES_TOLERATED);
    assert!(tail_failures_are_tolerable(Some(42), &failed, MAX_TAIL_FAILURES_TOLERATED));
    let failed7: Vec<u32> = (42..=48).collect();
    assert!(!tail_failures_are_tolerable(Some(41), &failed7, MAX_TAIL_FAILURES_TOLERATED));
}
