use std::collections::HashSet;

use lts::routes::{is_sampled, route_edges};

fn edges(nodes: &[i64], intersections: &[i64]) -> Vec<(i64, i64)> {
    let intersections: HashSet<i64> = intersections.iter().copied().collect();
    route_edges(&nodes.to_vec(), &intersections)
}

#[test]
fn route_runs_from_intersection_to_intersection() {
    assert_eq!(edges(&[1, 2, 3, 4, 5], &[1, 3, 5]), vec![(1, 3), (3, 5)]);
}

#[test]
fn route_starts_at_its_first_node_whatever_it_is() {
    assert_eq!(edges(&[7, 8, 9, 10], &[9, 10]), vec![(7, 9), (9, 10)]);
}

#[test]
fn nodes_after_the_last_intersection_are_dropped() {
    assert_eq!(edges(&[1, 2, 3, 4], &[1, 3]), vec![(1, 3)]);
}

#[test]
fn route_of_one_node_has_no_edge() {
    assert_eq!(edges(&[1], &[1]), vec![]);
    assert_eq!(edges(&[1], &[]), vec![]);
}

#[test]
fn route_without_intersections_has_no_edge() {
    assert_eq!(edges(&[1, 2, 3], &[]), vec![]);
    assert_eq!(edges(&[1, 2, 3], &[1]), vec![]);
}

#[test]
fn every_node_an_intersection_gives_every_step() {
    assert_eq!(edges(&[-4, 0, 9, 0], &[-4, 0, 9]), vec![(-4, 0), (0, 9), (9, 0)]);
}

#[test]
fn repeated_node_gives_a_loop_edge() {
    assert_eq!(edges(&[5, 5], &[5]), vec![(5, 5)]);
}

#[test]
fn full_sample_takes_every_request() {
    for ordinal in [1, 2, 999, 1000, 1001, 123_456] {
        assert!(is_sampled(ordinal, 1000));
    }
}

#[test]
fn sample_takes_the_low_remainders() {
    assert!(is_sampled(1, 500));
    assert!(is_sampled(500, 500));
    assert!(!is_sampled(501, 500));
    assert!(!is_sampled(999, 500));
    assert!(is_sampled(1000, 500));
    assert!(is_sampled(1500, 500));
    assert!(!is_sampled(1501, 500));
}

#[test]
fn empty_sample_still_takes_each_thousandth() {
    assert!(!is_sampled(1, 0));
    assert!(!is_sampled(999, 0));
    assert!(is_sampled(1000, 0));
    assert!(is_sampled(2000, 0));
}
