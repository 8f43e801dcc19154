use lts::green_mazovia::{
    is_bike_lane, is_cycling_forbidden, is_mixed_traffic, non_bicycle_infrastructure,
    separate_path,
};
use lts::{green_mazovia, Tags, LTS};

fn tags(pairs: &[(&str, &str)]) -> Tags {
    let mut tags = Tags::new();
    for (key, value) in pairs {
        tags.insert(key, value);
    }
    tags
}

fn classify(pairs: &[(&str, &str)]) -> (LTS, Vec<String>) {
    green_mazovia(&tags(pairs))
}

const MIXED: &str = "No bike lane or separated path; treating as mixed traffic";
const NO_MAXSPEED: &str = "No maxspeed tag, so assuming 50 kmph";

#[test]
fn empty_tags_are_not_allowed() {
    let (lts, msgs) = classify(&[]);
    assert_eq!(lts, LTS::NotAllowed);
    assert_eq!(msgs, vec!["Way doesn't have a highway or bicycle tag"]);
}

#[test]
fn cycleway_is_lts1() {
    let (lts, msgs) = classify(&[("highway", "cycleway")]);
    assert_eq!(lts, LTS::LTS1);
    assert_eq!(msgs, vec!["This way is a separated path because highway=cycleway"]);
}

#[test]
fn cycleway_with_signalled_crossing_is_lts2() {
    let (lts, msgs) = classify(&[("highway", "cycleway"), ("crossing", "traffic_signals")]);
    assert_eq!(lts, LTS::LTS2);
    assert_eq!(
        msgs,
        vec!["This way is a separated path because highway=cycleway, but have a traffic signal"]
    );
}

#[test]
fn plain_path_is_lts4() {
    let (lts, msgs) = classify(&[("highway", "path")]);
    assert_eq!(lts, LTS::LTS4);
    assert_eq!(msgs, vec!["Ground path can be not suitable for all bicycles"]);
}

#[test]
fn designated_path_is_lts1() {
    let (lts, msgs) = classify(&[("highway", "path"), ("bicycle", "designated")]);
    assert_eq!(lts, LTS::LTS1);
    assert_eq!(
        msgs,
        vec!["This way is a separated path because it is path with designated bike cycleway"]
    );
}

#[test]
fn slow_residential_is_lts2() {
    let (lts, msgs) = classify(&[("highway", "residential"), ("maxspeed", "20")]);
    assert_eq!(lts, LTS::LTS2);
    assert_eq!(msgs, vec![MIXED, "LTS 2 because speed is below 30 kmph"]);
}

#[test]
fn fast_residential_is_lts4() {
    let (lts, msgs) = classify(&[("highway", "residential"), ("maxspeed", "50")]);
    assert_eq!(lts, LTS::LTS4);
    assert_eq!(msgs, vec![MIXED, "LTS 4 because speed is over 30 kmph"]);
}

#[test]
fn residential_without_motor_vehicles_is_lts1() {
    let (lts, msgs) = classify(&[("highway", "residential"), ("motor_vehicle", "no")]);
    assert_eq!(lts, LTS::LTS1);
    assert_eq!(msgs, vec![MIXED, NO_MAXSPEED, "Motor vehicles not allowed, so LTS 1"]);
}

#[test]
fn motorway_is_not_allowed() {
    let (lts, msgs) = classify(&[("highway", "motorway")]);
    assert_eq!(lts, LTS::NotAllowed);
    assert_eq!(msgs, vec!["Cycling not permitted due to highway=motorway"]);
}

#[test]
fn residential_with_lane_is_lts1() {
    let (lts, msgs) = classify(&[("highway", "residential"), ("cycleway", "lane")]);
    assert_eq!(lts, LTS::LTS1);
    assert_eq!(
        msgs,
        vec!["Way has a bike lane because cycleway=lane", "Bike lane is always LTS1"]
    );
}

#[test]
fn bicycle_tag_alone_passes_the_first_rule() {
    let (lts, msgs) = classify(&[("bicycle", "yes")]);
    assert_eq!(lts, LTS::LTS4);
    assert_eq!(msgs, vec![MIXED, NO_MAXSPEED, "LTS 4 because speed is over 30 kmph"]);
}

#[test]
fn motorroad_is_not_allowed() {
    let (lts, msgs) = classify(&[("highway", "primary"), ("motorroad", "yes")]);
    assert_eq!(lts, LTS::NotAllowed);
    assert_eq!(msgs, vec!["Bicycles are not allowed on motorroads"]);
}

#[test]
fn motorroad_no_is_no_obstacle() {
    let (lts, _) = classify(&[("highway", "primary"), ("motorroad", "no"), ("maxspeed", "30")]);
    assert_eq!(lts, LTS::LTS2);
}

#[test]
fn bicycle_no_is_not_allowed() {
    let (lts, msgs) = classify(&[("highway", "residential"), ("bicycle", "no")]);
    assert_eq!(lts, LTS::NotAllowed);
    assert_eq!(msgs, vec!["Cycling not permitted due to bicycle=no"]);
}

#[test]
fn bicycle_use_sidepath_is_not_allowed() {
    let (lts, msgs) = classify(&[("highway", "secondary"), ("bicycle", "use_sidepath")]);
    assert_eq!(lts, LTS::NotAllowed);
    assert_eq!(msgs, vec!["Cycling not permitted due to bicycle=no"]);
}

#[test]
fn access_no_is_not_allowed_even_for_designated_bicycles() {
    let (lts, msgs) =
        classify(&[("highway", "service"), ("access", "no"), ("bicycle", "designated")]);
    assert_eq!(lts, LTS::NotAllowed);
    assert_eq!(msgs, vec!["Cycling not permitted due to access=no"]);
}

#[test]
fn closed_kinds_of_highway_are_not_allowed() {
    for kind in ["motorway", "motorway_link", "proposed", "construction"] {
        let (lts, msgs) = classify(&[("highway", kind)]);
        assert_eq!(lts, LTS::NotAllowed);
        assert_eq!(msgs, vec![format!("Cycling not permitted due to highway={kind}")]);
    }
}

#[test]
fn road_beside_a_separate_cycleway_is_not_allowed() {
    let (lts, msgs) = classify(&[("highway", "primary"), ("cycleway", "separate")]);
    assert_eq!(lts, LTS::NotAllowed);
    assert_eq!(
        msgs,
        vec!["Cycling not permitted because there is separate cycleway cycleway=separate"]
    );
}

#[test]
fn separate_cycleway_on_one_side_is_not_allowed() {
    let (lts, msgs) = classify(&[("highway", "primary"), ("cycleway:right", "separate")]);
    assert_eq!(lts, LTS::NotAllowed);
    assert_eq!(
        msgs,
        vec!["Cycling not permitted because there is separate cycleway cycleway:right=separate"]
    );
}

#[test]
fn footway_is_not_allowed() {
    let (lts, msgs) = classify(&[("highway", "footway")]);
    assert_eq!(lts, LTS::NotAllowed);
    assert_eq!(
        msgs,
        vec![
            "Cycling not permitted on highway=footway, when footway and bicycle=yes|separated|designated is missing"
        ]
    );
}

#[test]
fn footway_with_other_bicycle_value_is_not_allowed() {
    let (lts, _) = classify(&[("highway", "footway"), ("bicycle", "dismount")]);
    assert_eq!(lts, LTS::NotAllowed);
}

#[test]
fn footway_open_to_bicycles_is_mixed_traffic() {
    for value in ["yes", "separated", "designated"] {
        let (lts, msgs) = classify(&[("highway", "footway"), ("bicycle", value)]);
        assert_eq!(lts, LTS::LTS4);
        assert_eq!(msgs, vec![MIXED, NO_MAXSPEED, "LTS 4 because speed is over 30 kmph"]);
    }
}

#[test]
fn earlier_prohibition_rule_wins() {
    let (lts, msgs) = classify(&[
        ("highway", "motorway"),
        ("motorroad", "yes"),
        ("bicycle", "no"),
        ("access", "no"),
        ("cycleway", "separate"),
    ]);
    assert_eq!(lts, LTS::NotAllowed);
    assert_eq!(msgs, vec!["Bicycles are not allowed on motorroads"]);
}

#[test]
fn prohibition_wins_over_lane_markings() {
    let (lts, msgs) = classify(&[("highway", "motorway"), ("cycleway", "lane")]);
    assert_eq!(lts, LTS::NotAllowed);
    assert_eq!(msgs, vec!["Cycling not permitted due to highway=motorway"]);
}

#[test]
fn prohibition_wins_over_separated_path() {
    let (lts, msgs) = classify(&[("highway", "cycleway"), ("access", "no")]);
    assert_eq!(lts, LTS::NotAllowed);
    assert_eq!(msgs, vec!["Cycling not permitted due to access=no"]);
}

#[test]
fn separated_path_wins_over_lane_and_traffic() {
    let (lts, msgs) = classify(&[
        ("highway", "cycleway"),
        ("cycleway", "lane"),
        ("shoulder:access:bicycle", "yes"),
        ("maxspeed", "90"),
    ]);
    assert_eq!(lts, LTS::LTS1);
    assert_eq!(msgs, vec!["This way is a separated path because highway=cycleway"]);
}

#[test]
fn lane_wins_over_traffic() {
    let (lts, msgs) = classify(&[
        ("highway", "primary"),
        ("cycleway:left", "opposite_lane"),
        ("maxspeed", "90"),
    ]);
    assert_eq!(lts, LTS::LTS1);
    assert_eq!(
        msgs,
        vec!["Way has a bike lane because cycleway:left=opposite_lane", "Bike lane is always LTS1"]
    );
}

#[test]
fn cycle_track_is_a_separated_path() {
    let (lts, msgs) = classify(&[("highway", "secondary"), ("cycleway:right", "track")]);
    assert_eq!(lts, LTS::LTS1);
    assert_eq!(msgs, vec!["This way is a separated path because cycleway:right=track"]);
}

#[test]
fn opposite_track_is_a_separated_path() {
    let (lts, msgs) = classify(&[("highway", "secondary"), ("cycleway", "opposite_track")]);
    assert_eq!(lts, LTS::LTS1);
    assert_eq!(msgs, vec!["This way is a separated path because cycleway=opposite_track"]);
}

#[test]
fn path_rules_come_before_the_track_rule() {
    let (lts, msgs) = classify(&[("highway", "path"), ("cycleway", "track")]);
    assert_eq!(lts, LTS::LTS4);
    assert_eq!(msgs, vec!["Ground path can be not suitable for all bicycles"]);
}

#[test]
fn first_matching_tag_is_the_least_key() {
    let (lts, msgs) = classify(&[
        ("highway", "primary"),
        ("cycleway:right", "lane"),
        ("cycleway:left", "yes"),
        ("cycleway:both", "no"),
    ]);
    assert_eq!(lts, LTS::LTS1);
    assert_eq!(
        msgs,
        vec!["Way has a bike lane because cycleway:left=yes", "Bike lane is always LTS1"]
    );
}

#[test]
fn every_lane_value_counts() {
    for value in ["crossing", "lane", "left", "opposite", "opposite_lane", "right", "yes"] {
        let (lts, msgs) = classify(&[("highway", "tertiary"), ("cycleway", value)]);
        assert_eq!(lts, LTS::LTS1);
        assert_eq!(
            msgs,
            vec![
                format!("Way has a bike lane because cycleway={value}"),
                "Bike lane is always LTS1".to_string()
            ]
        );
    }
}

#[test]
fn other_cycleway_values_are_no_lane() {
    let (lts, _) = classify(&[("highway", "tertiary"), ("cycleway", "no"), ("maxspeed", "40")]);
    assert_eq!(lts, LTS::LTS4);
}

#[test]
fn shoulder_counts_as_lane() {
    let (lts, msgs) = classify(&[("highway", "trunk"), ("shoulder:access:bicycle", "yes")]);
    assert_eq!(lts, LTS::LTS1);
    assert_eq!(
        msgs,
        vec![
            "Way has a bike lane because shoulder:access:bicycle=yes",
            "Bike lane is always LTS1"
        ]
    );
}

#[test]
fn lane_stage_records_both_conditions() {
    let (lts, msgs) = classify(&[
        ("highway", "trunk"),
        ("shoulder:access:bicycle", "yes"),
        ("cycleway", "lane"),
    ]);
    assert_eq!(lts, LTS::LTS1);
    assert_eq!(
        msgs,
        vec![
            "Way has a bike lane because cycleway=lane",
            "Way has a bike lane because shoulder:access:bicycle=yes",
            "Bike lane is always LTS1"
        ]
    );
}

#[test]
fn motorcar_no_is_lts1() {
    let (lts, msgs) =
        classify(&[("highway", "residential"), ("motorcar", "no"), ("maxspeed", "70")]);
    assert_eq!(lts, LTS::LTS1);
    assert_eq!(msgs, vec![MIXED, "Motor vehicles not allowed, so LTS 1"]);
}

#[test]
fn track_is_lts2() {
    let (lts, msgs) = classify(&[("highway", "track"), ("maxspeed", "70")]);
    assert_eq!(lts, LTS::LTS2);
    assert_eq!(msgs, vec![MIXED, "LTS 2 because highway=track"]);
}

#[test]
fn contraflow_oneway_is_lts2() {
    let (lts, msgs) = classify(&[
        ("highway", "residential"),
        ("oneway", "yes"),
        ("oneway:bicycle", "no"),
        ("maxspeed", "50"),
    ]);
    assert_eq!(lts, LTS::LTS2);
    assert_eq!(
        msgs,
        vec![
            MIXED,
            "LTS 2 because it is one way highway with bicycles allowed in both directions"
        ]
    );
}

#[test]
fn oneway_alone_does_not_calm_traffic() {
    let (lts, _) = classify(&[("highway", "residential"), ("oneway", "yes"), ("maxspeed", "50")]);
    assert_eq!(lts, LTS::LTS4);
}

#[test]
fn thirty_is_still_calm() {
    let (lts, msgs) = classify(&[("highway", "residential"), ("maxspeed", "30")]);
    assert_eq!(lts, LTS::LTS2);
    assert_eq!(msgs, vec![MIXED, "LTS 2 because speed is below 30 kmph"]);
}

#[test]
fn thirty_one_is_not_calm() {
    let (lts, msgs) = classify(&[("highway", "residential"), ("maxspeed", "31")]);
    assert_eq!(lts, LTS::LTS4);
    assert_eq!(msgs, vec![MIXED, "LTS 4 because speed is over 30 kmph"]);
}

#[test]
fn missing_maxspeed_takes_the_default() {
    let (lts, msgs) = classify(&[("highway", "residential")]);
    assert_eq!(lts, LTS::LTS4);
    assert_eq!(msgs, vec![MIXED, NO_MAXSPEED, "LTS 4 because speed is over 30 kmph"]);
}

#[test]
fn unreadable_maxspeed_takes_the_default() {
    let (lts, msgs) = classify(&[("highway", "residential"), ("maxspeed", "20 mph")]);
    assert_eq!(lts, LTS::LTS4);
    assert_eq!(
        msgs,
        vec![
            MIXED,
            "Couldn't parse maxspeed=20 mph, so assuming 50 kmph",
            "LTS 4 because speed is over 30 kmph"
        ]
    );
}

#[test]
fn traffic_rules_are_tried_in_order() {
    let (lts, msgs) = classify(&[
        ("highway", "track"),
        ("motor_vehicle", "no"),
        ("oneway", "yes"),
        ("oneway:bicycle", "no"),
        ("maxspeed", "10"),
    ]);
    assert_eq!(lts, LTS::LTS1);
    assert_eq!(msgs, vec![MIXED, "Motor vehicles not allowed, so LTS 1"]);
}

#[test]
fn same_tags_give_the_same_answer() {
    let pairs = [
        ("highway", "primary"),
        ("cycleway:right", "lane"),
        ("cycleway:left", "lane"),
        ("shoulder:access:bicycle", "yes"),
        ("maxspeed", "60"),
    ];
    let first = classify(&pairs);
    let again = classify(&pairs);
    assert_eq!(first, again);

    let mut reversed = pairs;
    reversed.reverse();
    assert_eq!(classify(&reversed), first);
}

#[test]
fn gate_leaves_the_trail_alone_when_it_passes() {
    let mut msgs = vec!["earlier".to_string()];
    let forbidden = is_cycling_forbidden(&tags(&[("highway", "residential")]), &mut msgs);
    assert!(!forbidden);
    assert_eq!(msgs, vec!["earlier"]);
}

#[test]
fn gate_appends_to_the_trail() {
    let mut msgs = vec!["earlier".to_string()];
    let forbidden = is_cycling_forbidden(&tags(&[("highway", "proposed")]), &mut msgs);
    assert!(forbidden);
    assert_eq!(msgs, vec!["earlier", "Cycling not permitted due to highway=proposed"]);
}

#[test]
fn separate_path_gives_nothing_for_a_road() {
    let mut msgs = Vec::new();
    let found = separate_path(&tags(&[("highway", "residential")]), &mut msgs);
    assert_eq!(found, None);
    assert!(msgs.is_empty());
}

#[test]
fn bike_lane_is_absent_on_a_plain_road() {
    let mut msgs = Vec::new();
    assert!(!is_bike_lane(&tags(&[("highway", "residential")]), &mut msgs));
    assert!(msgs.is_empty());
}

#[test]
fn residual_rule_alone_gives_lts3_for_a_path() {
    let mut msgs = Vec::new();
    let found = non_bicycle_infrastructure(&tags(&[("highway", "path")]), &mut msgs);
    assert_eq!(found, Some(LTS::LTS3));
    assert_eq!(
        msgs,
        vec!["This way is a separated path because highway=path, but not suitable for all bicycles"]
    );
}

#[test]
fn residual_rule_gives_nothing_for_a_road() {
    let mut msgs = Vec::new();
    let found = non_bicycle_infrastructure(&tags(&[("highway", "residential")]), &mut msgs);
    assert_eq!(found, None);
    assert!(msgs.is_empty());
}

#[test]
fn mixed_traffic_always_decides() {
    let mut msgs = Vec::new();
    let found = is_mixed_traffic(&tags(&[]), &mut msgs);
    assert_eq!(found, Some(LTS::LTS4));
    assert_eq!(msgs, vec![MIXED, NO_MAXSPEED, "LTS 4 because speed is over 30 kmph"]);
}

#[test]
fn stress_levels_are_numbered() {
    assert_eq!(LTS::NotAllowed.level(), None);
    assert_eq!(LTS::LTS1.level(), Some(1));
    assert_eq!(LTS::LTS2.level(), Some(2));
    assert_eq!(LTS::LTS3.level(), Some(3));
    assert_eq!(LTS::LTS4.level(), Some(4));
}

#[test]
fn every_combination_of_tags_is_decided() {
    let pool = [
        ("highway", "path"),
        ("bicycle", "designated"),
        ("access", "no"),
        ("cycleway", "lane"),
        ("cycleway:left", "track"),
        ("cycleway:right", "separate"),
        ("shoulder:access:bicycle", "yes"),
        ("motor_vehicle", "no"),
        ("oneway", "yes"),
        ("oneway:bicycle", "no"),
        ("maxspeed", "30"),
        ("crossing", "traffic_signals"),
    ];
    for chosen in 0..(1u32 << pool.len()) {
        let mut picked = Vec::new();
        for (i, pair) in pool.iter().enumerate() {
            if chosen & (1 << i) != 0 {
                picked.push(*pair);
            }
        }
        let segment = tags(&picked);
        let (lts, msgs) = green_mazovia(&segment);

        assert!(!msgs.is_empty());
        assert_ne!(lts, LTS::LTS3);
        assert_ne!(msgs.last().unwrap(), "No categories matched");

        let mut gate = Vec::new();
        let forbidden = is_cycling_forbidden(&segment, &mut gate);
        assert_eq!(lts == LTS::NotAllowed, forbidden);
        if forbidden {
            assert_eq!(msgs, gate);
        } else {
            let mut path = Vec::new();
            if let Some(found) = separate_path(&segment, &mut path) {
                assert_eq!((lts, msgs), (found, path));
            } else {
                let mut lane = Vec::new();
                if is_bike_lane(&segment, &mut lane) {
                    lane.push("Bike lane is always LTS1".to_string());
                    assert_eq!((lts, msgs), (LTS::LTS1, lane));
                } else {
                    let mut traffic = Vec::new();
                    let found = is_mixed_traffic(&segment, &mut traffic);
                    assert_eq!((Some(lts), msgs), (found, traffic));
                }
            }
        }
    }
}
