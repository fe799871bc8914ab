use indexmap::IndexMap;
use lode::loader::Loader;
use lode::manifest::{
    validate_loader_token, Defaults, LoaderSpec, Manifest, ManifestError, ModSpec,
    ModSpecDetailed, Overlay, PackMeta, TokenField, MAX_MANIFEST_BYTES,
};
use lode::provider::Provider;
use lode::side::Side;
use serde_json::Value;

type Table = IndexMap<String, Value>;

fn text(table: &Table, key: &str) -> Option<String> {
    Some(table.get(key)?.as_str()?.to_string())
}

fn spec(value: &Value) -> Option<ModSpec> {
    if let Some(constraint) = value.as_str() {
        return Some(ModSpec::Constraint(constraint.to_string()));
    }
    let table: Table = serde_json::from_value(value.clone()).ok()?;
    Some(ModSpec::Detailed(ModSpecDetailed {
        version: text(&table, "version")?,
        side: text(&table, "side").and_then(|word| Side::from_token(&word)),
        provider: text(&table, "provider").and_then(|word| Provider::from_token(&word)),
        project_id: text(&table, "projectId"),
        optional: table.get("optional").and_then(Value::as_bool).unwrap_or(false),
        pin: table.get("pin").and_then(Value::as_bool).unwrap_or(false),
    }))
}

/// The manifest that a JSON text holds, where it is strict JSON of the right shape.
fn decode(json: &str) -> Option<Manifest> {
    let top: IndexMap<String, Table> = serde_json::from_str(json).ok()?;
    let pack = top.get("pack")?;
    let loader = top.get("loader")?;
    let mut mods = IndexMap::new();
    for (slug, value) in top.get("mods").unwrap_or(&Table::new()) {
        mods.insert(slug.clone(), spec(value)?);
    }
    Some(Manifest {
        pack: PackMeta {
            name: text(pack, "name")?,
            author: text(pack, "author")?,
            version: text(pack, "version")?,
            description: text(pack, "description"),
        },
        loader: LoaderSpec {
            name: Loader::from_token(&text(loader, "name")?)?,
            minecraft: text(loader, "minecraft")?,
            version: text(loader, "version")?,
        },
        defaults: Defaults { side: Side::Both },
        overlays: Vec::<Overlay>::new(),
        mods,
    })
}

fn parse(json: &str) -> Result<Manifest, ManifestError> {
    Manifest::parse(json, decode(json))
}

#[test]
fn deeply_nested_input_is_a_parse_error_not_a_crash() {
    // serde_json's own recursion limit rejects deep nesting as an error (no stack overflow).
    let deep = format!("{}{}", "[".repeat(500), "]".repeat(500));
    assert!(parse(&deep).is_err());
}

#[test]
fn rejects_comments_and_trailing_commas() {
    // Strict JSON, like package.json: comments and trailing commas are hard errors.
    let base = "{\"pack\":{\"name\":\"t\",\"author\":\"a\",\"version\":\"0\"},\
                \"loader\":{\"name\":\"fabric\",\"minecraft\":\"1.20.1\",\"version\":\"0\"}}";
    assert!(parse(base).is_ok(), "plain JSON must still parse");
    assert!(
        parse(&format!("// note\n{base}")).is_err(),
        "a // comment must be rejected"
    );
    assert!(
        parse(
            "{\"pack\":{\"name\":\"t\",\"author\":\"a\",\"version\":\"0\",},\
             \"loader\":{\"name\":\"fabric\",\"minecraft\":\"1.20.1\",\"version\":\"0\"}}"
        )
        .is_err(),
        "a trailing comma must be rejected"
    );
}

#[test]
fn rejects_loader_tokens_that_could_inject_installer_options() {
    // A leading '-' would be read as an option by a spawned installer; exotic characters and
    // whitespace are refused too.
    for bad in ["-rf", "--installServer", "1.20; rm", "a b", "", "$(x)"] {
        let json = format!(
            "{{\"pack\":{{\"name\":\"t\",\"author\":\"a\",\"version\":\"0\"}},\
             \"loader\":{{\"name\":\"forge\",\"minecraft\":\"{bad}\",\"version\":\"1\"}}}}"
        );
        assert!(
            parse(&json).is_err(),
            "should reject minecraft {bad:?}"
        );
    }
    // Real loader tokens (dots, dashes-not-leading, plus, underscore) still parse.
    for good in ["1.20.1", "47.2.0", "20.4.80-beta", "0.16.0"] {
        let json = format!(
            "{{\"pack\":{{\"name\":\"t\",\"author\":\"a\",\"version\":\"0\"}},\
             \"loader\":{{\"name\":\"forge\",\"minecraft\":\"1.20.1\",\"version\":\"{good}\"}}}}"
        );
        assert!(
            parse(&json).is_ok(),
            "should accept version {good:?}"
        );
    }
}

#[test]
fn parses_and_reports_pin() {
    let json = "{\"pack\":{\"name\":\"t\",\"author\":\"a\",\"version\":\"0\"},\
                \"loader\":{\"name\":\"fabric\",\"minecraft\":\"1.20.1\",\"version\":\"0\"},\
                \"mods\":{\"sodium\":{\"version\":\"*\",\"pin\":true},\"jei\":\"*\"}}";
    let manifest = parse(json).unwrap();
    assert!(manifest.mods["sodium"].pin());
    assert!(!manifest.mods["jei"].pin());
}

#[test]
fn parses_strict_json_and_rejects_jsonc_extras() {
    // Strict JSON only (like package.json): plain JSON parses; comments and trailing commas do not.
    let json = r#"{
        "pack": { "name": "Test", "author": "A", "version": "0.1.0" },
        "loader": { "name": "forge", "minecraft": "1.20.1", "version": "47.3.0" },
        "mods": {
            "sodium": "^0.5.8",
            "jei": { "version": "*", "side": "client" }
        }
    }"#;

    let manifest = parse(json).expect("plain JSON should parse");
    assert_eq!(manifest.pack.name, "Test");
    assert_eq!(manifest.loader.name, Loader::Forge);
    assert_eq!(manifest.mods["sodium"].constraint(), "^0.5.8");
    assert_eq!(manifest.mods["jei"].side(), Some(Side::Client));

    // A // comment and a trailing comma are hard errors.
    assert!(
        parse(&format!("// core\n{json}")).is_err(),
        "a comment must be rejected"
    );
    let trailing = r#"{
        "pack": { "name": "T", "author": "A", "version": "0.1.0" },
        "loader": { "name": "forge", "minecraft": "1.20.1", "version": "47.3.0" },
        "mods": { "sodium": "*", }
    }"#;
    assert!(
        parse(trailing).is_err(),
        "a trailing comma must be rejected"
    );
}

#[test]
fn preserves_mod_declaration_order() {
    let json = r#"{
        "pack": { "name": "T", "author": "A", "version": "0.1.0" },
        "loader": { "name": "quilt", "minecraft": "1.20.1", "version": "0.23" },
        "mods": { "zzz": "*", "aaa": "*", "mmm": "*" }
    }"#;

    let manifest = parse(json).unwrap();
    let order: Vec<&str> = (0..manifest.len()).map(|i| manifest.entry(i).0.as_str()).collect();

    assert_eq!(order, ["zzz", "aaa", "mmm"]);
}

#[test]
fn a_manifest_over_the_limit_is_refused() {
    assert_eq!(Manifest::admit_size(MAX_MANIFEST_BYTES), Ok(()));
    assert_eq!(
        Manifest::admit_size(MAX_MANIFEST_BYTES + 1),
        Err(ManifestError::TooLarge)
    );
    let long = " ".repeat(MAX_MANIFEST_BYTES as usize + 1);
    assert_eq!(Manifest::parse(&long, None).unwrap_err(), ManifestError::TooLarge);
    assert_eq!(Manifest::parse("x", None).unwrap_err(), ManifestError::Malformed);
}

#[test]
fn a_bad_token_is_reported_with_its_field() {
    let json = |minecraft: &str, version: &str| {
        format!(
            "{{\"pack\":{{\"name\":\"t\",\"author\":\"a\",\"version\":\"0\"}},\
             \"loader\":{{\"name\":\"forge\",\"minecraft\":\"{minecraft}\",\"version\":\"{version}\"}}}}"
        )
    };
    assert_eq!(
        parse(&json("-x", "-x")).unwrap_err(),
        ManifestError::BadToken(TokenField::Minecraft)
    );
    assert_eq!(
        parse(&json("1.20.1", "a b")).unwrap_err(),
        ManifestError::BadToken(TokenField::Version)
    );
    assert_eq!(validate_loader_token(TokenField::Version, "a+b_c.d-e"), Ok(()));
    assert_eq!(
        validate_loader_token(TokenField::Version, "+a"),
        Err(ManifestError::BadToken(TokenField::Version))
    );
}

#[test]
fn a_bare_constraint_has_no_details() {
    let bare = ModSpec::Constraint("^1".to_string());
    assert_eq!(bare.constraint(), "^1");
    assert_eq!(bare.side(), None);
    assert_eq!(bare.provider(), None);
    assert_eq!(bare.project_id(), None);
    assert!(!bare.pin());
    assert!(!bare.is_optional());

    let detailed = ModSpec::Detailed(ModSpecDetailed {
        version: "local".to_string(),
        side: Some(Side::Server),
        provider: Some(Provider::Local),
        project_id: Some("a.jar".to_string()),
        optional: true,
        pin: true,
    });
    assert_eq!(detailed.constraint(), "local");
    assert_eq!(detailed.side(), Some(Side::Server));
    assert_eq!(detailed.provider(), Some(Provider::Local));
    assert_eq!(detailed.project_id(), Some("a.jar"));
    assert!(detailed.pin());
    assert!(detailed.is_optional());
}

#[test]
fn find_goes_by_slug() {
    let json = r#"{
        "pack": { "name": "T", "author": "A", "version": "0.1.0" },
        "loader": { "name": "quilt", "minecraft": "1.20.1", "version": "0.23" },
        "mods": { "zzz": "1", "aaa": "2" }
    }"#;
    let manifest = parse(json).unwrap();
    assert_eq!(manifest.find("aaa").unwrap().constraint(), "2");
    assert!(manifest.find("mmm").is_none());
}
