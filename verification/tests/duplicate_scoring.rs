use clann_server::duplicates::{
    confidence_for, find_duplicate_matches, rank_matches, score_candidate, DuplicateCandidate, DuplicateMatch,
};
use clann_server::mcp::{mcp_extract_year, mcp_shares_significant_word, shares_significant_word_in};

#[test]
fn extract_year_finds_first_plausible_year() {
    assert_eq!(mcp_extract_year("1985-03-01"), Some(1985));
    assert_eq!(mcp_extract_year("abt. 1852"), Some(1852));
    assert_eq!(mcp_extract_year("12 May 1699 or 1701"), Some(1701));
    assert_eq!(mcp_extract_year("3000"), None);
    assert_eq!(mcp_extract_year("98"), None);
    assert_eq!(mcp_extract_year("Ériu 1923"), Some(1923));
}

#[test]
fn shares_significant_word_ignores_short_words() {
    assert!(mcp_shares_significant_word("county cork, ireland", "cork city, ireland"));
    assert!(mcp_shares_significant_word("cork", "cork"));
    assert!(!mcp_shares_significant_word("ann", "ann"));
    assert!(!mcp_shares_significant_word("st. ann", "ann st"));
    assert!(mcp_shares_significant_word("baile átha", "átha cliath"));
    assert!(!mcp_shares_significant_word("", "dublin"));
}

#[test]
fn shares_with_explicit_masks() {
    // A mask that marks every character makes the whole string one word.
    let a = "ab-cd";
    let b = "ab-cd";
    let all = vec![true; 5];
    assert!(shares_significant_word_in(a, &all, b, &all));
    let split = vec![true, true, false, true, true];
    assert!(!shares_significant_word_in(a, &split, b, &split));
}

#[test]
fn score_candidate_rules() {
    // Sex mismatch disqualifies.
    assert_eq!(score_candidate("Male", None, None, Some("Female"), None, None), None);
    // Same sex, same year, same place: 3 + 2 + 3.
    assert_eq!(
        score_candidate("Male", Some(1900), Some("cork"), Some("Male"), Some("1900-01-01"), Some("cork")),
        Some(8)
    );
    // Year one off, place contained.
    assert_eq!(
        score_candidate("Male", Some(1900), Some("cork"), None, Some("1901"), Some("cork city")),
        Some(3)
    );
    // Unknown own sex never disqualifies; shared word only.
    assert_eq!(
        score_candidate("", Some(1900), Some("county kerry"), Some("Female"), Some("1950"), Some("kerry county")),
        Some(1)
    );
}

#[test]
fn confidence_labels() {
    assert_eq!(confidence_for(8), "strong");
    assert_eq!(confidence_for(4), "strong");
    assert_eq!(confidence_for(3), "likely");
    assert_eq!(confidence_for(2), "likely");
    assert_eq!(confidence_for(1), "possible");
    assert_eq!(confidence_for(0), "possible");
}

fn cand(id: &str, owner: &str, sex: Option<&str>, dob: Option<&str>, pob: Option<&str>) -> DuplicateCandidate {
    DuplicateCandidate {
        proxy_id: id.to_string(),
        canonical_id: format!("person:{id}"),
        tree: "t".to_string(),
        owner: owner.to_string(),
        sex: sex.map(str::to_string),
        date_of_birth: dob.map(str::to_string),
        place_of_birth: pob.map(str::to_string),
    }
}

#[test]
fn duplicates_are_ranked_by_score_and_filtered_by_sex() {
    let cands = vec![
        cand("p1", "bob", Some("Male"), None, None),
        cand("p2", "carol", Some("Female"), Some("1900"), Some("Cork")),
        cand("p3", "alice", Some("Male"), Some("1900"), Some("CORK")),
        cand("p4", "dave", None, Some("1899"), None),
        cand("p5", "erin", Some("Male"), None, None),
    ];
    let r = find_duplicate_matches("alice", "Sean", "Murphy", "Male", Some("1900-02-02"), Some("Cork"), &cands);
    let ids: Vec<&str> = r.iter().map(|m| m.proxy_id.as_str()).collect();
    assert_eq!(ids, vec!["p3", "p1", "p5", "p4"]);
    assert_eq!(r[0].score, 8);
    assert_eq!(r[0].confidence, "strong");
    assert!(r[0].is_own);
    assert!(!r[1].is_own);
    assert_eq!(r[1].score, 3);
    assert_eq!(r[3].score, 1);
    assert_eq!(r[3].confidence, "possible");
    assert_eq!(r[0].first_name, "Sean");
    assert_eq!(r[0].family_name, "Murphy");
}

#[test]
fn no_duplicates_without_a_full_name() {
    let cands = vec![cand("p1", "bob", None, None, None)];
    assert!(find_duplicate_matches("alice", "", "Murphy", "", None, None, &cands).is_empty());
    assert!(find_duplicate_matches("alice", "Sean", "", "", None, None, &cands).is_empty());
}

fn m(id: &str, score: u32) -> DuplicateMatch {
    DuplicateMatch {
        proxy_id: id.to_string(),
        canonical_id: String::new(),
        tree: String::new(),
        owner: String::new(),
        family_name: String::new(),
        first_name: String::new(),
        sex: None,
        date_of_birth: None,
        place_of_birth: None,
        score,
        confidence: String::new(),
        is_own: false,
    }
}

#[test]
fn ranking_is_stable() {
    let ms = vec![m("a", 2), m("b", 5), m("c", 2), m("d", 5), m("e", 0)];
    let r = rank_matches(&ms);
    let ids: Vec<&str> = r.iter().map(|x| x.proxy_id.as_str()).collect();
    assert_eq!(ids, vec!["b", "d", "a", "c", "e"]);
}
