use lode::side::Side;

/// The JSON text of a side: its word as a JSON string.
fn to_json(side: Side) -> String {
    serde_json::to_string(side.token()).unwrap()
}

/// The side that a JSON string names, where it names one.
fn from_json(json: &str) -> Option<Side> {
    Side::from_token(&serde_json::from_str::<String>(json).unwrap())
}

#[test]
fn from_env_maps_support_flags_to_the_four_sides() {
    assert_eq!(Side::from_env(true, true), Side::Both);
    assert_eq!(Side::from_env(true, false), Side::Client);
    assert_eq!(Side::from_env(false, true), Side::Server);
    assert_eq!(Side::from_env(false, false), Side::Neither);
}

#[test]
fn packwiz_token_maps_each_side_to_its_field_value() {
    assert_eq!(Side::Client.packwiz_token(), "client");
    assert_eq!(Side::Server.packwiz_token(), "server");
    assert_eq!(Side::Both.packwiz_token(), "both");
    assert_eq!(Side::Neither.packwiz_token(), "");
}

#[test]
fn packwiz_token_for_none_is_empty_and_collides_with_no_real_side() {
    let none = Side::Neither.packwiz_token();

    assert!(none.is_empty());
    for other in [Side::Client, Side::Server, Side::Both] {
        assert_ne!(other.packwiz_token(), none);
    }
}

#[test]
fn is_default_is_true_only_for_both() {
    assert!(Side::Both.is_default());
    assert!(!Side::Client.is_default());
    assert!(!Side::Server.is_default());
    assert!(!Side::Neither.is_default());
}

#[test]
fn default_side_is_both_and_reports_itself_as_default() {
    assert_eq!(Side::default(), Side::Both);
    assert!(Side::default().is_default());
}

#[test]
fn serde_renames_each_variant_to_its_lowercase_token() {
    assert_eq!(to_json(Side::Client), "\"client\"");
    assert_eq!(to_json(Side::Server), "\"server\"");
    assert_eq!(to_json(Side::Both), "\"both\"");
    assert_eq!(to_json(Side::Neither), "\"none\"");
}

#[test]
fn serde_none_uses_the_word_not_the_empty_packwiz_token() {
    let json = to_json(Side::Neither);

    assert_eq!(json, "\"none\"");
    assert_ne!(json.trim_matches('"'), Side::Neither.packwiz_token());
}

#[test]
fn every_variant_round_trips_through_json() {
    for side in [Side::Client, Side::Server, Side::Both, Side::Neither] {
        let json = to_json(side);
        let back: Side = from_json(&json).unwrap();

        assert_eq!(back, side);
    }
}

#[test]
fn none_survives_a_round_trip_without_widening_to_both() {
    let json = to_json(Side::Neither);

    let back: Side = from_json(&json).unwrap();

    assert_eq!(back, Side::Neither);
    assert_ne!(back, Side::Both);
}

#[test]
fn deserializes_each_lowercase_token_back_to_its_variant() {
    assert_eq!(from_json("\"client\"").unwrap(), Side::Client);
    assert_eq!(from_json("\"server\"").unwrap(), Side::Server);
    assert_eq!(from_json("\"both\"").unwrap(), Side::Both);
    assert_eq!(from_json("\"none\"").unwrap(), Side::Neither);
}

#[test]
fn rejects_unknown_miscased_and_empty_tokens() {
    for bad in [
        "\"neither\"",
        "\"CLIENT\"",
        "\"Both\"",
        "\"\"",
        "\"client \"",
    ] {
        assert!(from_json(bad).is_none(), "should reject {bad}");
    }
}

#[test]
fn the_four_sides_are_pairwise_distinct() {
    let all = [Side::Client, Side::Server, Side::Both, Side::Neither];

    for (i, a) in all.iter().enumerate() {
        for (j, b) in all.iter().enumerate() {
            assert_eq!(i == j, a == b, "eq mismatch for {a:?} vs {b:?}");
        }
    }
}
