use knowledge_interface::scorer::{
    compute_name_score, fuse_candidates, DisplayField, LexicalCandidate, SemanticHit, SCORE_ONE,
};

#[test]
fn compute_name_score_prefers_exact_name_and_alias_matches() {
    let names = vec!["ada".to_string(), "lovelace".to_string()];
    let aliases = vec!["A. Lovelace".to_string(), "Augusta Ada".to_string()];

    let (score, matched_tokens) =
        compute_name_score(&names, &"Ada Lovelace".to_string(), &aliases);

    assert!(score > SCORE_ONE * 8 / 10);
    assert_eq!(matched_tokens, names);
}

#[test]
fn name_score_takes_the_best_comparator_per_token() {
    let names = vec!["ada lovelace".to_string()];
    let (exact, _) = compute_name_score(&names, &"Ada Lovelace".to_string(), &vec![]);
    assert_eq!(exact, 10000);

    let (contains, _) =
        compute_name_score(&vec!["ada".to_string()], &"Ada Lovelace".to_string(), &vec![]);
    assert_eq!(contains, 8500);

    let (alias_exact, _) = compute_name_score(
        &vec!["augusta ada".to_string()],
        &"Ada Lovelace".to_string(),
        &vec!["Augusta Ada".to_string()],
    );
    assert_eq!(alias_exact, 9500);

    let (none, matched) =
        compute_name_score(&vec!["byron".to_string()], &"Ada Lovelace".to_string(), &vec![]);
    assert_eq!(none, 0);
    assert!(matched.is_empty());
}

#[test]
fn name_matching_is_case_insensitive() {
    // an upper-case name matches a lower-case token only through folding
    let (exact, _) = compute_name_score(
        &vec!["ada lovelace".to_string()],
        &"ADA LOVELACE".to_string(),
        &vec![],
    );
    assert_eq!(exact, 10000);

    let (alias_exact, _) = compute_name_score(
        &vec!["augusta ada".to_string()],
        &"Lovelace".to_string(),
        &vec!["AUGUSTA ADA".to_string()],
    );
    assert_eq!(alias_exact, 9500);
}

#[test]
fn candidate_fusion_ranks_semantic_match_first() {
    let lovelace_id = "550e8400-e29b-41d4-a716-446655440010";
    let byron_id = "550e8400-e29b-41d4-a716-446655440011";
    let names = vec!["ada".to_string(), "lovelace".to_string()];
    let lovelace_aliases = vec!["A. Lovelace".to_string(), "Augusta Ada".to_string()];

    let (lovelace_score, lovelace_tokens) =
        compute_name_score(&names, &"Ada Lovelace".to_string(), &lovelace_aliases);
    let (byron_score, byron_tokens) =
        compute_name_score(&names, &"Ada Byron".to_string(), &vec![]);

    let lexical = vec![
        LexicalCandidate {
            id: lovelace_id.to_string(),
            name_score: lovelace_score,
            matched_tokens: lovelace_tokens,
        },
        LexicalCandidate {
            id: byron_id.to_string(),
            name_score: byron_score,
            matched_tokens: byron_tokens,
        },
    ];
    let semantic = vec![SemanticHit {
        root_entity_id: lovelace_id.to_string(),
        block_level: 0,
        text: Some("Ada Lovelace wrote the first published algorithm.".to_string()),
        score: 9000,
    }];
    let display = vec![
        DisplayField {
            id: lovelace_id.to_string(),
            name: "Ada Lovelace".to_string(),
            type_id: "node.person".to_string(),
        },
        DisplayField {
            id: byron_id.to_string(),
            name: "Ada Byron".to_string(),
            type_id: "node.person".to_string(),
        },
    ];

    let ranked = fuse_candidates(&lexical, &semantic, &display, 5);
    assert_eq!(ranked.len(), 2);
    assert_eq!(ranked[0].id, lovelace_id);
    assert_eq!(ranked[0].name, "Ada Lovelace");
    // 0.55 * name + 0.45 * (semantic / (1 + level)); level 0 keeps the raw score
    assert_eq!(ranked[0].score, (55 * lovelace_score + 45 * 9000) / 100);
    assert_eq!(
        ranked[0].described_by_text.as_deref(),
        Some("Ada Lovelace wrote the first published algorithm.")
    );
    assert_eq!(ranked[1].id, byron_id);
    assert_eq!(ranked[1].score, (55 * byron_score) / 100);
    assert!(ranked[0].score > ranked[1].score);
}

#[test]
fn deeper_blocks_are_discounted() {
    let id = "550e8400-e29b-41d4-a716-446655440012";
    let semantic = vec![
        SemanticHit {
            root_entity_id: id.to_string(),
            block_level: 2,
            text: Some("deep summary".to_string()),
            score: 9000,
        },
        SemanticHit {
            root_entity_id: id.to_string(),
            block_level: 0,
            text: Some("root description".to_string()),
            score: 6000,
        },
    ];
    let display = vec![DisplayField {
        id: id.to_string(),
        name: "Subject".to_string(),
        type_id: "node.concept".to_string(),
    }];

    let ranked = fuse_candidates(&vec![], &semantic, &display, 10);
    assert_eq!(ranked.len(), 1);
    // the best weighted score is max(9000/3, 6000/1) = 6000
    assert_eq!(ranked[0].score, (45 * 6000) / 100);
    // the text of the shallowest block wins
    assert_eq!(ranked[0].described_by_text.as_deref(), Some("root description"));
}

#[test]
fn candidates_without_display_fields_are_dropped() {
    let semantic = vec![SemanticHit {
        root_entity_id: "550e8400-e29b-41d4-a716-446655440013".to_string(),
        block_level: 0,
        text: None,
        score: 9000,
    }];
    let ranked = fuse_candidates(&vec![], &semantic, &vec![], 10);
    assert!(ranked.is_empty());
}

#[test]
fn ranking_truncates_to_the_limit() {
    let mut lexical = Vec::new();
    let mut display = Vec::new();
    let ids = [
        "550e8400-e29b-41d4-a716-446655440021",
        "550e8400-e29b-41d4-a716-446655440022",
        "550e8400-e29b-41d4-a716-446655440023",
    ];
    for (k, id) in ids.iter().enumerate() {
        lexical.push(LexicalCandidate {
            id: id.to_string(),
            name_score: 1000 * (k as u64 + 1),
            matched_tokens: vec![],
        });
        display.push(DisplayField {
            id: id.to_string(),
            name: format!("Candidate {k}"),
            type_id: "node.person".to_string(),
        });
    }

    let ranked = fuse_candidates(&lexical, &vec![], &display, 2);
    assert_eq!(ranked.len(), 2);
    assert_eq!(ranked[0].id, ids[2]);
    assert_eq!(ranked[1].id, ids[1]);
    assert!(ranked[0].score >= ranked[1].score);
}
