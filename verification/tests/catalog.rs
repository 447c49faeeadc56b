use noir_playground::challenges::{challenge_reply, find_challenge, get_challenges};

#[test]
fn catalog_structure() {
    let challenges = get_challenges();
    assert_eq!(challenges.len(), 3);
    for (i, c) in challenges.iter().enumerate() {
        assert_eq!(c.id as usize, i + 1);
        assert_eq!(c.test_cases.len(), 1);
        assert!(!c.description.is_empty());
        assert!(c.test_cases[0].contains("#[test]"));
        assert!(c.test_cases[0].contains("fn test_main_fromserver"));
    }
}

#[test]
fn first_hidden_snippet_exact_text() {
    let challenges = get_challenges();
    assert_eq!(
        challenges[0].test_cases[0],
        "#[test]\n                fn test_main_fromserver() {\n                    main(1,2);\n                    main(0,5);\n                }"
    );
    assert!(challenges[0]
        .description
        .starts_with("<p style=\"font-size: 20px; font-weight:bold;\">Assert</p>\n\n            <p>Welcome to Noir Playground!"));
}

#[test]
fn challenge_reply_strips_hidden_snippets() {
    let challenges = get_challenges();
    let reply = challenge_reply(&challenges, 1).expect("challenge 1 exists");
    assert_eq!(reply.id, 1);
    assert_eq!(reply.description, challenges[0].description);
    assert!(reply.test_cases.is_empty());
}

#[test]
fn challenge_reply_unknown_id() {
    let challenges = get_challenges();
    assert!(challenge_reply(&challenges, 999).is_none());
}

#[test]
fn find_challenge_returns_first_match() {
    let challenges = get_challenges();
    assert_eq!(find_challenge(&challenges, 2), Some(1));
    assert_eq!(find_challenge(&challenges, 42), None);
}
