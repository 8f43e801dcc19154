//! The classification of a segment: five stages of rules, tried in a fixed
//! order, of which the first that decides gives the category.

use crate::parse::{get_maxspeed_kmph, maxspeed_kmph, maxspeed_notes};
use crate::rules::{
    first_match, fires, lemma_first_match_fires, lemma_holding_rule_decides, lemma_no_match,
    none_holds, note_of, outcome_of, Rule,
};
use crate::tags::{first_prefix_match, tag_is, tag_is_any, texts, TagMap, Tags};
use crate::trail::{record, trail_of};
use crate::LTS;
use vstd::prelude::*;

verus! {

/// How a tag found by its key's prefix is written in a note: key, `=`, value.
pub open spec fn named(found: Option<(Seq<char>, Seq<char>)>) -> Seq<char> {
    match found {
        Some((key, value)) => key + "="@ + value,
        None => Seq::empty(),
    }
}

/// The rules under which cycling is not allowed on the segment at all.
pub open spec fn prohibition_rules(tags: TagMap) -> Seq<Rule> {
    seq![
        Rule {
            holds: !tags.contains_key("highway"@) && !tags.contains_key("bicycle"@),
            outcome: LTS::NotAllowed,
            note: "Way doesn't have a highway or bicycle tag"@,
        },
        Rule {
            holds: tag_is(tags, "motorroad"@, "yes"@),
            outcome: LTS::NotAllowed,
            note: "Bicycles are not allowed on motorroads"@,
        },
        Rule {
            holds: tag_is_any(tags, "bicycle"@, seq!["no"@, "use_sidepath"@]),
            outcome: LTS::NotAllowed,
            note: "Cycling not permitted due to bicycle=no"@,
        },
        Rule {
            holds: tag_is(tags, "access"@, "no"@),
            outcome: LTS::NotAllowed,
            note: "Cycling not permitted due to access=no"@,
        },
        Rule {
            holds: tag_is_any(
                tags,
                "highway"@,
                seq!["motorway"@, "motorway_link"@, "proposed"@, "construction"@],
            ),
            outcome: LTS::NotAllowed,
            note: "Cycling not permitted due to highway="@ + tags["highway"@],
        },
        Rule {
            holds: first_prefix_match(tags, "cycleway"@, seq!["separate"@]) is Some,
            outcome: LTS::NotAllowed,
            note: "Cycling not permitted because there is separate cycleway "@ + named(
                first_prefix_match(tags, "cycleway"@, seq!["separate"@]),
            ),
        },
        Rule {
            holds: tag_is(tags, "highway"@, "footway"@) && !tag_is_any(
                tags,
                "bicycle"@,
                seq!["yes"@, "separated"@, "designated"@],
            ),
            outcome: LTS::NotAllowed,
            note: "Cycling not permitted on highway="@ + tags["highway"@]
                + ", when footway and bicycle=yes|separated|designated is missing"@,
        },
    ]
}

/// The rules for a segment that is itself a path kept apart from motor
/// traffic.
pub open spec fn path_rules(tags: TagMap) -> Seq<Rule> {
    seq![
        Rule {
            holds: tag_is(tags, "highway"@, "cycleway"@) && tag_is(
                tags,
                "crossing"@,
                "traffic_signals"@,
            ),
            outcome: LTS::LTS2,
            note: "This way is a separated path because highway="@ + tags["highway"@]
                + ", but have a traffic signal"@,
        },
        Rule {
            holds: tag_is(tags, "highway"@, "cycleway"@),
            outcome: LTS::LTS1,
            note: "This way is a separated path because highway="@ + tags["highway"@],
        },
        Rule {
            holds: tag_is(tags, "highway"@, "path"@) && tag_is(tags, "bicycle"@, "designated"@),
            outcome: LTS::LTS1,
            note: "This way is a separated path because it is path with designated bike cycleway"@,
        },
        Rule {
            holds: tag_is(tags, "highway"@, "path"@),
            outcome: LTS::LTS4,
            note: "Ground path can be not suitable for all bicycles"@,
        },
        Rule {
            holds: first_prefix_match(tags, "cycleway"@, seq!["track"@, "opposite_track"@])
                is Some,
            outcome: LTS::LTS1,
            note: "This way is a separated path because "@ + named(
                first_prefix_match(tags, "cycleway"@, seq!["track"@, "opposite_track"@]),
            ),
        },
    ]
}

/// The values of a `cycleway` tag that stand for a lane marked on the road.
pub open spec fn lane_values() -> Seq<Seq<char>> {
    seq!["crossing"@, "lane"@, "left"@, "opposite"@, "opposite_lane"@, "right"@, "yes"@]
}

/// The segment carries a marked lane for bicycles.
pub open spec fn has_bike_lane(tags: TagMap) -> bool {
    first_prefix_match(tags, "cycleway"@, lane_values()) is Some || tag_is(
        tags,
        "shoulder:access:bicycle"@,
        "yes"@,
    )
}

/// The notes of the lane stage. Both of its conditions are looked at, and
/// each that holds leaves its note, the `cycleway` tag first.
pub open spec fn lane_notes(tags: TagMap) -> Seq<Seq<char>> {
    let marked = first_prefix_match(tags, "cycleway"@, lane_values());
    let by_tag = if marked is Some {
        seq!["Way has a bike lane because "@ + named(marked)]
    } else {
        seq![]
    };
    let by_shoulder = if tag_is(tags, "shoulder:access:bicycle"@, "yes"@) {
        seq!["Way has a bike lane because shoulder:access:bicycle=yes"@]
    } else {
        seq![]
    };
    by_tag + by_shoulder
}

/// The rule for what the earlier stages left over.
pub open spec fn residual_rules(tags: TagMap) -> Seq<Rule> {
    seq![
        Rule {
            holds: tag_is(tags, "highway"@, "path"@),
            outcome: LTS::LTS3,
            note: "This way is a separated path because highway="@ + tags["highway"@]
                + ", but not suitable for all bicycles"@,
        },
    ]
}

/// The rules for a road that bicycles share with motor traffic. The last one
/// always holds.
pub open spec fn traffic_rules(tags: TagMap) -> Seq<Rule> {
    seq![
        Rule {
            holds: tag_is(tags, "motor_vehicle"@, "no"@) || tag_is(tags, "motorcar"@, "no"@),
            outcome: LTS::LTS1,
            note: "Motor vehicles not allowed, so LTS 1"@,
        },
        Rule {
            holds: tag_is(tags, "highway"@, "track"@),
            outcome: LTS::LTS2,
            note: "LTS 2 because highway=track"@,
        },
        Rule {
            holds: tag_is(tags, "oneway"@, "yes"@) && tag_is(tags, "oneway:bicycle"@, "no"@),
            outcome: LTS::LTS2,
            note: "LTS 2 because it is one way highway with bicycles allowed in both directions"@,
        },
        Rule {
            holds: maxspeed_kmph(tags) <= 30,
            outcome: LTS::LTS2,
            note: "LTS 2 because speed is below 30 kmph"@,
        },
        Rule { holds: true, outcome: LTS::LTS4, note: "LTS 4 because speed is over 30 kmph"@ },
    ]
}

/// The notes of the mixed traffic stage: its opening note, what reading the
/// speed limit adds, and the note of the rule that decided.
pub open spec fn traffic_notes(tags: TagMap) -> Seq<Seq<char>> {
    seq!["No bike lane or separated path; treating as mixed traffic"@] + maxspeed_notes(tags)
        + note_of(first_match(traffic_rules(tags)))
}

/// The five stages, in the order in which they are tried.
#[derive(Clone, Copy, Debug, PartialEq, Eq, Structural)]
pub enum Stage {
    Prohibition,
    SeparatedPath,
    BikeLane,
    Residual,
    MixedTraffic,
}

/// The place of a stage in the order of the stages.
pub open spec fn stage_order(stage: Stage) -> int {
    match stage {
        Stage::Prohibition => 0,
        Stage::SeparatedPath => 1,
        Stage::BikeLane => 2,
        Stage::Residual => 3,
        Stage::MixedTraffic => 4,
    }
}

/// The stage has something to say about the segment: the condition of one
/// of its rules holds.
pub open spec fn stage_applies(tags: TagMap, stage: Stage) -> bool {
    match stage {
        Stage::Prohibition => !none_holds(prohibition_rules(tags)),
        Stage::SeparatedPath => !none_holds(path_rules(tags)),
        Stage::BikeLane => has_bike_lane(tags),
        Stage::Residual => !none_holds(residual_rules(tags)),
        Stage::MixedTraffic => !none_holds(traffic_rules(tags)),
    }
}

/// The stage that decides: the first, in the order in which they are tried,
/// that gives a definite answer.
pub open spec fn deciding_stage(tags: TagMap) -> Option<Stage> {
    if first_match(prohibition_rules(tags)) is Some {
        Some(Stage::Prohibition)
    } else if first_match(path_rules(tags)) is Some {
        Some(Stage::SeparatedPath)
    } else if has_bike_lane(tags) {
        Some(Stage::BikeLane)
    } else if first_match(residual_rules(tags)) is Some {
        Some(Stage::Residual)
    } else if first_match(traffic_rules(tags)) is Some {
        Some(Stage::MixedTraffic)
    } else {
        None
    }
}

/// The category that a stage gives when it decides.
pub open spec fn stage_outcome(tags: TagMap, stage: Stage) -> LTS {
    match stage {
        Stage::Prohibition => LTS::NotAllowed,
        Stage::SeparatedPath => first_match(path_rules(tags))->0.outcome,
        Stage::BikeLane => LTS::LTS1,
        Stage::Residual => first_match(residual_rules(tags))->0.outcome,
        Stage::MixedTraffic => first_match(traffic_rules(tags))->0.outcome,
    }
}

/// The notes that a stage leaves on the trail when it decides.
pub open spec fn stage_notes(tags: TagMap, stage: Stage) -> Seq<Seq<char>> {
    match stage {
        Stage::Prohibition => note_of(first_match(prohibition_rules(tags))),
        Stage::SeparatedPath => note_of(first_match(path_rules(tags))),
        Stage::BikeLane => lane_notes(tags) + seq!["Bike lane is always LTS1"@],
        Stage::Residual => note_of(first_match(residual_rules(tags))),
        Stage::MixedTraffic => traffic_notes(tags),
    }
}

/// The category of a segment and the trail that explains it.
///
/// The stages are tried in order and the first that decides gives both: the
/// trail holds the notes of that stage and of no other. Were no stage to
/// decide, the answer would be `NotAllowed`, with a note saying so after
/// those of the mixed traffic stage.
pub open spec fn classification(tags: TagMap) -> (LTS, Seq<Seq<char>>) {
    match deciding_stage(tags) {
        Some(stage) => (stage_outcome(tags, stage), stage_notes(tags, stage)),
        None => (LTS::NotAllowed, traffic_notes(tags) + seq!["No categories matched"@]),
    }
}

/// The classification depends on nothing but which keys are present and
/// what value each holds: two sets of tags that agree on that get the same
/// category and the same trail.
pub proof fn lemma_classification_depends_on_tags_alone(a: TagMap, b: TagMap)
    requires
        forall|key: Seq<char>| a.contains_key(key) == b.contains_key(key),
        forall|key: Seq<char>| a.contains_key(key) ==> a[key] == b[key],
    ensures
        classification(a) == classification(b),
{
    assert(a =~= b);
}

/// A stage applies exactly where its rules have a first match.
proof fn lemma_applies_iff_match(rules: Seq<Rule>)
    ensures
        !none_holds(rules) <==> first_match(rules) is Some,
{
    if !none_holds(rules) {
        let i = choose|i: int| 0 <= i < rules.len() && (#[trigger] rules[i]).holds;
        let k = lemma_holding_rule_decides(rules, i);
    } else {
        lemma_no_match(rules);
    }
}

/// The residual stage never applies where the separated path stage does
/// not: every path is taken by the separated path stage.
pub proof fn lemma_residual_needs_separated_path(tags: TagMap)
    ensures
        stage_applies(tags, Stage::Residual) ==> stage_applies(tags, Stage::SeparatedPath),
{
    if stage_applies(tags, Stage::Residual) {
        assert(residual_rules(tags)[0].holds);
        assert(path_rules(tags)[3].holds);
    }
}

/// Every set of tags is decided by one of the stages, and never by the
/// residual stage, which is dead. The mixed traffic stage always applies, so
/// the defensive default is never taken.
pub proof fn lemma_some_stage_decides(tags: TagMap)
    ensures
        stage_applies(tags, Stage::MixedTraffic),
        deciding_stage(tags) is Some,
        deciding_stage(tags) != Some(Stage::Residual),
        classification(tags) == (
            stage_outcome(tags, deciding_stage(tags)->0),
            stage_notes(tags, deciding_stage(tags)->0),
        ),
{
    assert(traffic_rules(tags)[4].holds);
    lemma_applies_iff_match(traffic_rules(tags));
    lemma_applies_iff_match(path_rules(tags));
    lemma_applies_iff_match(residual_rules(tags));
    lemma_residual_needs_separated_path(tags);
}

/// A stage that applies shuts out every later stage: the stage that decides
/// is that one or an earlier one, so no rule of a later stage has a say and
/// no note of a later stage reaches the trail.
pub proof fn lemma_stage_shuts_out_later_stages(tags: TagMap, stage: Stage)
    requires
        stage_applies(tags, stage),
    ensures
        deciding_stage(tags) is Some,
        stage_order(deciding_stage(tags)->0) <= stage_order(stage),
        classification(tags).1 == stage_notes(tags, deciding_stage(tags)->0),
{
    lemma_some_stage_decides(tags);
    lemma_applies_iff_match(prohibition_rules(tags));
    lemma_applies_iff_match(path_rules(tags));
    lemma_applies_iff_match(residual_rules(tags));
}

/// The stage that decides is the first that applies: it applies, and no
/// stage before it does.
pub proof fn lemma_deciding_stage_is_first_to_apply(tags: TagMap, earlier: Stage)
    requires
        deciding_stage(tags) is Some,
        stage_order(earlier) < stage_order(deciding_stage(tags)->0),
    ensures
        stage_applies(tags, deciding_stage(tags)->0),
        !stage_applies(tags, earlier),
{
    lemma_applies_iff_match(prohibition_rules(tags));
    lemma_applies_iff_match(path_rules(tags));
    lemma_applies_iff_match(residual_rules(tags));
    lemma_applies_iff_match(traffic_rules(tags));
}

/// Prohibition comes first: where the condition of any prohibition rule
/// holds, the category is `NotAllowed` whatever else the tags say, and the
/// trail is the note of the first such rule and nothing more.
pub proof fn lemma_prohibition_precedence(tags: TagMap, i: int) -> (k: int)
    requires
        0 <= i < prohibition_rules(tags).len(),
        prohibition_rules(tags)[i].holds,
    ensures
        0 <= k <= i,
        fires(prohibition_rules(tags), k),
        deciding_stage(tags) == Some(Stage::Prohibition),
        classification(tags) == (LTS::NotAllowed, seq![prohibition_rules(tags)[k].note]),
{
    lemma_holding_rule_decides(prohibition_rules(tags), i)
}

/// The category is `NotAllowed` only where a prohibition rule holds.
pub proof fn lemma_not_allowed_means_prohibited(tags: TagMap)
    requires
        classification(tags).0 == LTS::NotAllowed,
    ensures
        stage_applies(tags, Stage::Prohibition),
{
    lemma_some_stage_decides(tags);
    lemma_applies_iff_match(prohibition_rules(tags));
    if first_match(path_rules(tags)) is Some {
        let path = choose|k: int| fires(path_rules(tags), k);
    }
    let traffic = choose|k: int| fires(traffic_rules(tags), k);
}

/// No segment is ever classified as `LTS3`.
pub proof fn lemma_never_lts3(tags: TagMap)
    ensures
        classification(tags).0 != LTS::LTS3,
{
    lemma_some_stage_decides(tags);
    if first_match(path_rules(tags)) is Some {
        let path = choose|k: int| fires(path_rules(tags), k);
    }
    let traffic = choose|k: int| fires(traffic_rules(tags), k);
}

/// Records the note of the rule that decides a stage.
fn decide(
    msgs: &mut Vec<String>,
    note: String,
    Ghost(rules): Ghost<Seq<Rule>>,
    Ghost(i): Ghost<int>,
)
    requires
        fires(rules, i),
        note@ == rules[i].note,
    ensures
        first_match(rules) == Some(rules[i]),
        trail_of(final(msgs)@) == trail_of(old(msgs)@) + note_of(first_match(rules)),
{
    proof {
        lemma_first_match_fires(rules, i);
    }
    record(msgs, note);
    assert(trail_of(msgs@) =~= trail_of(old(msgs)@) + note_of(first_match(rules)));
}

/// Writes a tag as key, `=`, value at the end of `lead`.
fn with_tag(lead: &str, key: &String, value: &String) -> (note: String)
    ensures
        note@ == lead@ + named(Some((key@, value@))),
{
    let mut note = String::from_str(lead);
    note.append(key.as_str());
    note.append("=");
    note.append(value.as_str());
    assert(note@ =~= lead@ + named(Some((key@, value@))));
    note
}

/// Tells whether cycling is not allowed on the segment at all, and if so
/// adds the reason to the trail. The rules are tried in order and the first
/// that holds decides.
pub fn is_cycling_forbidden(tags: &Tags, msgs: &mut Vec<String>) -> (forbidden: bool)
    ensures
        forbidden == first_match(prohibition_rules(tags@)) is Some,
        trail_of(final(msgs)@) == trail_of(old(msgs)@) + note_of(
            first_match(prohibition_rules(tags@)),
        ),
{
    let ghost rules = prohibition_rules(tags@);

    if !tags.has("highway") && !tags.has("bicycle") {
        let note = String::from_str("Way doesn't have a highway or bicycle tag");
        decide(msgs, note, Ghost(rules), Ghost(0));
        return true;
    }
    if tags.is("motorroad", "yes") {
        let note = String::from_str("Bicycles are not allowed on motorroads");
        decide(msgs, note, Ghost(rules), Ghost(1));
        return true;
    }
    let no_entry = vec!["no", "use_sidepath"];
    assert(texts(no_entry@) =~= seq!["no"@, "use_sidepath"@]);
    if tags.is_any("bicycle", no_entry) {
        let note = String::from_str("Cycling not permitted due to bicycle=no");
        decide(msgs, note, Ghost(rules), Ghost(2));
        return true;
    }
    if tags.is("access", "no") {
        let note = String::from_str("Cycling not permitted due to access=no");
        decide(msgs, note, Ghost(rules), Ghost(3));
        return true;
    }
    let closed_roads = vec!["motorway", "motorway_link", "proposed", "construction"];
    assert(texts(closed_roads@) =~= seq![
        "motorway"@,
        "motorway_link"@,
        "proposed"@,
        "construction"@,
    ]);
    if tags.is_any("highway", closed_roads) {
        let mut note = String::from_str("Cycling not permitted due to highway=");
        note.append(tags.get("highway").unwrap().as_str());
        decide(msgs, note, Ghost(rules), Ghost(4));
        return true;
    }
    let separate = vec!["separate"];
    assert(texts(separate@) =~= seq!["separate"@]);
    if let Some((key, value)) = tags.prefix_is_any("cycleway", separate) {
        let lead = "Cycling not permitted because there is separate cycleway ";
        let note = with_tag(lead, key, value);
        decide(msgs, note, Ghost(rules), Ghost(5));
        return true;
    }
    let cycling_allowed = vec!["yes", "separated", "designated"];
    assert(texts(cycling_allowed@) =~= seq!["yes"@, "separated"@, "designated"@]);
    if tags.is("highway", "footway") && !tags.is_any("bicycle", cycling_allowed) {
        let mut note = String::from_str("Cycling not permitted on highway=");
        note.append(tags.get("highway").unwrap().as_str());
        note.append(", when footway and bicycle=yes|separated|designated is missing");
        decide(msgs, note, Ghost(rules), Ghost(6));
        return true;
    }
    assert(trail_of(msgs@) =~= trail_of(old(msgs)@) + note_of(first_match(rules)));
    false
}

/// Gives the category of a segment that is itself a path kept apart from
/// motor traffic, and adds the reason to the trail; `None`, and no note,
/// where it is not such a path. The rules are tried in order and the first
/// that holds decides.
pub fn separate_path(tags: &Tags, msgs: &mut Vec<String>) -> (found: Option<LTS>)
    ensures
        found == outcome_of(first_match(path_rules(tags@))),
        trail_of(final(msgs)@) == trail_of(old(msgs)@) + note_of(first_match(path_rules(tags@))),
{
    let ghost rules = path_rules(tags@);

    if tags.is("highway", "cycleway") && tags.is("crossing", "traffic_signals") {
        let mut note = String::from_str("This way is a separated path because highway=");
        note.append(tags.get("highway").unwrap().as_str());
        note.append(", but have a traffic signal");
        decide(msgs, note, Ghost(rules), Ghost(0));
        return Some(LTS::LTS2);
    }
    if tags.is("highway", "cycleway") {
        let mut note = String::from_str("This way is a separated path because highway=");
        note.append(tags.get("highway").unwrap().as_str());
        decide(msgs, note, Ghost(rules), Ghost(1));
        return Some(LTS::LTS1);
    }
    if tags.is("highway", "path") && tags.is("bicycle", "designated") {
        let note = String::from_str(
            "This way is a separated path because it is path with designated bike cycleway",
        );
        decide(msgs, note, Ghost(rules), Ghost(2));
        return Some(LTS::LTS1);
    }
    if tags.is("highway", "path") {
        let note = String::from_str("Ground path can be not suitable for all bicycles");
        decide(msgs, note, Ghost(rules), Ghost(3));
        return Some(LTS::LTS4);
    }
    let tracks = vec!["track", "opposite_track"];
    assert(texts(tracks@) =~= seq!["track"@, "opposite_track"@]);
    if let Some((key, value)) = tags.prefix_is_any("cycleway", tracks) {
        let note = with_tag("This way is a separated path because ", key, value);
        decide(msgs, note, Ghost(rules), Ghost(4));
        return Some(LTS::LTS1);
    }
    assert(trail_of(msgs@) =~= trail_of(old(msgs)@) + note_of(first_match(rules)));
    None
}

/// Tells whether the segment carries a marked lane for bicycles. Both
/// conditions are looked at, whatever the first gave, and each that holds
/// adds its note to the trail.
pub fn is_bike_lane(tags: &Tags, msgs: &mut Vec<String>) -> (has_lane: bool)
    ensures
        has_lane == has_bike_lane(tags@),
        trail_of(final(msgs)@) == trail_of(old(msgs)@) + lane_notes(tags@),
{
    let mut has_lane = false;
    let lanes = vec!["crossing", "lane", "left", "opposite", "opposite_lane", "right", "yes"];
    assert(texts(lanes@) =~= lane_values());
    if let Some((key, value)) = tags.prefix_is_any("cycleway", lanes) {
        has_lane = true;
        record(msgs, with_tag("Way has a bike lane because ", key, value));
    }
    if tags.is("shoulder:access:bicycle", "yes") {
        record(msgs, String::from_str("Way has a bike lane because shoulder:access:bicycle=yes"));
        has_lane = true;
    }
    assert(trail_of(msgs@) =~= trail_of(old(msgs)@) + lane_notes(tags@));
    has_lane
}

/// Gives the category of a path that the earlier stages did not take, and
/// adds the reason to the trail; `None`, and no note, for anything else.
pub fn non_bicycle_infrastructure(tags: &Tags, msgs: &mut Vec<String>) -> (found: Option<LTS>)
    ensures
        found == outcome_of(first_match(residual_rules(tags@))),
        trail_of(final(msgs)@) == trail_of(old(msgs)@) + note_of(
            first_match(residual_rules(tags@)),
        ),
{
    let ghost rules = residual_rules(tags@);

    if tags.is("highway", "path") {
        let mut note = String::from_str("This way is a separated path because highway=");
        note.append(tags.get("highway").unwrap().as_str());
        note.append(", but not suitable for all bicycles");
        decide(msgs, note, Ghost(rules), Ghost(0));
        return Some(LTS::LTS3);
    }
    assert(trail_of(msgs@) =~= trail_of(old(msgs)@) + note_of(first_match(rules)));
    None
}

/// Gives the category of a road that bicycles share with motor traffic. It
/// always gives one. The trail gets the opening note of the stage, then what
/// reading the speed limit adds, then the note of the rule that decided.
pub fn is_mixed_traffic(tags: &Tags, msgs: &mut Vec<String>) -> (found: Option<LTS>)
    ensures
        found is Some,
        found == outcome_of(first_match(traffic_rules(tags@))),
        trail_of(final(msgs)@) == trail_of(old(msgs)@) + traffic_notes(tags@),
{
    let ghost rules = traffic_rules(tags@);
    record(msgs, String::from_str("No bike lane or separated path; treating as mixed traffic"));

    let speed_limit = get_maxspeed_kmph(tags, msgs);
    let ghost opened = trail_of(msgs@);
    assert(opened =~= trail_of(old(msgs)@) + (seq![
        "No bike lane or separated path; treating as mixed traffic"@,
    ] + maxspeed_notes(tags@)));

    let found = if tags.is("motor_vehicle", "no") || tags.is("motorcar", "no") {
        let note = String::from_str("Motor vehicles not allowed, so LTS 1");
        decide(msgs, note, Ghost(rules), Ghost(0));
        LTS::LTS1
    } else if tags.is("highway", "track") {
        let note = String::from_str("LTS 2 because highway=track");
        decide(msgs, note, Ghost(rules), Ghost(1));
        LTS::LTS2
    } else if tags.is("oneway", "yes") && tags.is("oneway:bicycle", "no") {
        let note = String::from_str(
            "LTS 2 because it is one way highway with bicycles allowed in both directions",
        );
        decide(msgs, note, Ghost(rules), Ghost(2));
        LTS::LTS2
    } else if speed_limit <= 30 {
        let note = String::from_str("LTS 2 because speed is below 30 kmph");
        decide(msgs, note, Ghost(rules), Ghost(3));
        LTS::LTS2
    } else {
        let note = String::from_str("LTS 4 because speed is over 30 kmph");
        decide(msgs, note, Ghost(rules), Ghost(4));
        LTS::LTS4
    };
    assert(trail_of(msgs@) =~= trail_of(old(msgs)@) + traffic_notes(tags@));
    Some(found)
}

/// Classifies a segment by its tags: returns its category and the trail of
/// notes that explains it.
///
/// The stages are tried in a fixed order and the first that decides ends the
/// classification, so no note of a later stage reaches the trail.
pub fn green_mazovia(tags: &Tags) -> (result: (LTS, Vec<String>))
    ensures
        result.0 == classification(tags@).0,
        trail_of(result.1@) == classification(tags@).1,
{
    let mut msgs: Vec<String> = Vec::new();
    assert(trail_of(msgs@) =~= Seq::<Seq<char>>::empty());

    if is_cycling_forbidden(tags, &mut msgs) {
        assert(trail_of(msgs@) =~= classification(tags@).1);
        return (LTS::NotAllowed, msgs);
    }
    if let Some(lts) = separate_path(tags, &mut msgs) {
        assert(trail_of(msgs@) =~= classification(tags@).1);
        return (lts, msgs);
    }
    if is_bike_lane(tags, &mut msgs) {
        record(&mut msgs, String::from_str("Bike lane is always LTS1"));
        assert(trail_of(msgs@) =~= classification(tags@).1);
        return (LTS::LTS1, msgs);
    }
    if let Some(lts) = non_bicycle_infrastructure(tags, &mut msgs) {
        assert(trail_of(msgs@) =~= classification(tags@).1);
        return (lts, msgs);
    }
    if let Some(lts) = is_mixed_traffic(tags, &mut msgs) {
        assert(trail_of(msgs@) =~= classification(tags@).1);
        return (lts, msgs);
    }
    record(&mut msgs, String::from_str("No categories matched"));
    (LTS::NotAllowed, msgs)
}

} // verus!
