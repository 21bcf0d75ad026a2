use hunt_bot::hunt4::score::summarize_ranked_candidates;
use hunt_bot::hunt4::step::TargetCandidate;
use hunt_bot::hunt4::targeting::sort_candidates;

fn candidate(
    target_id: u32,
    distance: u32,
    in_attack_range: bool,
    reachable_path: Option<Vec<(i32, i32)>>,
    is_attacker: bool,
) -> TargetCandidate {
    TargetCandidate {
        target_id,
        entity_ptr: target_id + 0x1000,
        name: format!("mob_{target_id:X}"),
        tile: (target_id as i32, target_id as i32 + 1),
        distance,
        in_attack_range,
        reachable_path,
        is_attacker,
    }
}

#[test]
fn summarize_ranked_candidates_uses_targeting_order_and_adds_rank() {
    let mut candidates = vec![
        candidate(0x0100_0001, 2, true, Some(Vec::new()), false),
        candidate(
            0x0100_0002,
            7,
            false,
            Some(vec![(1, 1), (2, 2), (3, 3)]),
            true,
        ),
        candidate(0x0100_0003, 1, false, None, false),
    ];
    sort_candidates(&mut candidates);

    let scores = summarize_ranked_candidates(&candidates);

    assert_eq!(
        scores
            .iter()
            .map(|score| score.target_id)
            .collect::<Vec<_>>(),
        vec![0x0100_0001, 0x0100_0002, 0x0100_0003]
    );
    assert_eq!(scores[0].rank, 1);
    assert!(scores[0].reason.contains("in_range"));
    assert!(scores[1].reason.contains("attacker"));
    assert!(scores[1].reason.contains("approach_steps=3"));
    assert_eq!(scores[2].approach_steps, None);
}

#[test]
fn summarize_ranked_candidates_preserves_input_order_from_planner() {
    let scores = summarize_ranked_candidates(&[
        candidate(
            0x0100_0002,
            7,
            false,
            Some(vec![(1, 1), (2, 2), (3, 3)]),
            true,
        ),
        candidate(0x0100_0001, 2, true, Some(Vec::new()), false),
    ]);

    assert_eq!(
        scores
            .iter()
            .map(|score| (score.rank, score.target_id))
            .collect::<Vec<_>>(),
        vec![(1, 0x0100_0002), (2, 0x0100_0001)]
    );
}

#[test]
fn summarize_candidates_records_first_approach_tile() {
    let scores = summarize_ranked_candidates(&[candidate(
        0x0100_0001,
        4,
        false,
        Some(vec![(101, 100), (102, 100)]),
        false,
    )]);

    assert_eq!(scores[0].approach_next_tile, Some((101, 100)));
}
