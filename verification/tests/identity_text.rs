use affiliation_parser::identity::deterministic_id;
use affiliation_parser::identity::IdMaps;
use affiliation_parser::text::doi_prefix_string;
use affiliation_parser::text::format_elapsed;
use affiliation_parser::text::str_eq_ignore_ascii_case;
use sha2::Digest;
use sha2::Sha256;

#[test]
fn deterministic_id_matches_known_sha256_vectors() {
    assert_eq!(
        deterministic_id("rec", ""),
        "rec-sha256-e3b0c44298fc1c149afbf4c8996fb92427ae41e4649b934ca495991b7852b855"
    );
    assert_eq!(
        deterministic_id("p", "abc"),
        "p-sha256-ba7816bf8f01cfea414140de5dae2223b00361a396177a9cb410ff61f20015ad"
    );
}

#[test]
fn deterministic_id_agrees_with_direct_hashing() {
    let content = "author_name:Ada Lovelace";
    let expected = format!("val-sha256-{}", hex::encode(Sha256::digest(content.as_bytes())));
    assert_eq!(deterministic_id("val", content), expected);
}

#[test]
fn identity_is_pure_across_maps_and_calls() {
    let mut ids1 = IdMaps::new("r".to_string(), "v".to_string());
    let mut ids2 = IdMaps::new("r".to_string(), "v".to_string());
    let primary = "10.1/x".to_string();
    let a = ids1.record_id(&primary);
    let b = ids2.record_id(&primary);
    let c = ids1.record_id(&primary);
    assert_eq!(a, b);
    assert_eq!(a, c);
    assert_eq!(a, deterministic_id("r", "10.1/x"));
    let va = ids1.value_id(&"t".to_string(), &"c".to_string());
    let vb = ids2.value_id(&"t".to_string(), &"c".to_string());
    let vc = ids1.value_id(&"t".to_string(), &"c".to_string());
    assert_eq!(va, vb);
    assert_eq!(va, vc);
    assert_eq!(va, deterministic_id("v", "t:c"));
}

#[test]
fn value_ids_distinguish_type_and_content() {
    let mut ids = IdMaps::new("r".to_string(), "v".to_string());
    let a = ids.value_id(&"name".to_string(), &"x".to_string());
    let b = ids.value_id(&"ror".to_string(), &"x".to_string());
    let c = ids.value_id(&"name".to_string(), &"y".to_string());
    assert_ne!(a, b);
    assert_ne!(a, c);
}

#[test]
fn distinct_prefixes_give_distinct_ids() {
    assert_ne!(deterministic_id("a", "same"), deterministic_id("ab", "same"));
    assert_ne!(deterministic_id("a", "x"), deterministic_id("b", "x"));
}

#[test]
fn eq_ignore_ascii_case_behaviour() {
    assert!(str_eq_ignore_ascii_case("ROR", "ror"));
    assert!(str_eq_ignore_ascii_case("RoR", "rOr"));
    assert!(!str_eq_ignore_ascii_case("ROR", "rors"));
    assert!(!str_eq_ignore_ascii_case("ROR", "rot"));
    assert!(str_eq_ignore_ascii_case("", ""));
    assert_eq!(
        str_eq_ignore_ascii_case("Grüße", "grüße"),
        "Grüße".eq_ignore_ascii_case("grüße")
    );
}

#[test]
fn doi_prefix_takes_text_before_first_slash() {
    assert_eq!(doi_prefix_string("10.1/xyz"), Some("10.1".to_string()));
    assert_eq!(doi_prefix_string("10.1/x/y"), Some("10.1".to_string()));
    assert_eq!(doi_prefix_string("/x"), Some("".to_string()));
    assert_eq!(doi_prefix_string("no-slash"), None);
}

#[test]
fn format_elapsed_matches_expected_forms() {
    assert_eq!(format_elapsed(0, 5), "0.005s");
    assert_eq!(format_elapsed(3, 42), "3.042s");
    assert_eq!(format_elapsed(9, 250), "9.250s");
    assert_eq!(format_elapsed(65, 0), "1m 5s");
    assert_eq!(format_elapsed(3700, 0), "1h 1m 40s");
    assert_eq!(format_elapsed(7322, 999), "2h 2m 2s");
}
