use ayarla::manifest::{
    decode_item, decode_manifest, red_manifesto, FieldName, ManifestError, RawField, RawItem,
    RawManifest,
};

#[test]
fn red_manifesto_with_empty_content_assert_err() {
    let result = red_manifesto(String::new());
    assert!(result.is_err())
}

#[test]
fn red_manifesto_with_one_entry_assert_ok() {
    let content = r#"
[[manifest_items]]
source = "nvim"
destination = "./config/nvim"
force = true
"#;

    let manifest = red_manifesto(String::from(content)).expect("to get result");

    assert_eq!(manifest.manifest_items.len(), 1);
    assert_eq!(manifest.manifest_items[0].source, "nvim");
    assert_eq!(manifest.manifest_items[0].destination, "./config/nvim");
    assert_eq!(manifest.manifest_items[0].force, true);
}

#[test]
fn red_manifesto_with_one_entry_but_different_order_assert_ok() {
    let content = r#"
[[manifest_items]]
destination = "./config/nvim"
source = "nvim"
force = true
"#;

    let manifest = red_manifesto(String::from(content)).expect("to get result");

    assert_eq!(manifest.manifest_items.len(), 1);
    assert_eq!(manifest.manifest_items[0].source, "nvim");
    assert_eq!(manifest.manifest_items[0].destination, "./config/nvim");
    assert_eq!(manifest.manifest_items[0].force, true);
}

#[test]
fn red_manifesto_with_two_entries_assert_ok() {
    let content = r#"
[[manifest_items]]
source = "nvim"
destination = "./config/nvim"
force = true

[[manifest_items]]
source = "tmux.conf"
destination = ".tmux.conf"
force = false
"#;

    let manifest = red_manifesto(String::from(content)).expect("to get result");

    assert_eq!(manifest.manifest_items.len(), 2);
    assert_eq!(manifest.manifest_items[1].source, "tmux.conf");
    assert_eq!(manifest.manifest_items[1].destination, ".tmux.conf");
    assert_eq!(manifest.manifest_items[1].force, false);
}

#[test]
fn red_manifesto_with_one_entry_and_default_values_assert_ok() {
    let content = r#"
[[manifest_items]]
source = "nvim"
destination = "./config/nvim"
"#;

    let manifest = red_manifesto(String::from(content)).expect("to get result");

    assert_eq!(manifest.manifest_items.len(), 1);
    assert_eq!(manifest.manifest_items[0].source, "nvim");
    assert_eq!(manifest.manifest_items[0].destination, "./config/nvim");
    assert_eq!(manifest.manifest_items[0].force, false);
}

#[test]
fn red_manifesto_with_one_entry_but_missing_destination_assert_err() {
    let content = r#"
[[manifest_items]]
source = "nvim"
force = false
"#;

    let manifest = red_manifesto(String::from(content));

    assert!(manifest.is_err())
}

#[test]
fn red_manifesto_with_one_entry_but_missing_source_assert_err() {
    let content = r#"
[[manifest_items]]
destination = "./config/nvim"
force = false
"#;

    let manifest = red_manifesto(String::from(content));

    assert!(manifest.is_err())
}

#[test]
fn red_manifesto_with_two_entries_but_missing_required_fields_assert_err() {
    let content = r#"
[[manifest_items]]
destination = "./config/nvim"

[[manifest_items]]
source = "tmux.conf"
"#;

    let manifest = red_manifesto(String::from(content));

    assert!(manifest.is_err())
}

fn is_error(r: &Result<ayarla::manifest::Manifest, ManifestError>, expected: &str) -> bool {
    match r {
        Ok(_) => false,
        Err(e) => {
            let name = match e {
                ManifestError::Syntax(_) => "syntax",
                ManifestError::MissingItems => "missing_items",
                ManifestError::ItemsNotArray => "items_not_array",
                ManifestError::ItemNotTable(_) => "item_not_table",
                ManifestError::MissingField(_, _) => "missing_field",
                ManifestError::WrongFieldType(_, _) => "wrong_field_type",
            };
            name == expected
        }
    }
}

#[test]
fn red_manifesto_reports_syntax_error() {
    let result = red_manifesto(String::from("[[manifest_items]\nsource = "));
    assert!(is_error(&result, "syntax"));
}

#[test]
fn red_manifesto_empty_text_has_no_items_key() {
    let result = red_manifesto(String::new());
    assert!(is_error(&result, "missing_items"));
}

#[test]
fn red_manifesto_items_not_array() {
    let result = red_manifesto(String::from("manifest_items = \"nvim\"\n"));
    assert!(is_error(&result, "items_not_array"));
}

#[test]
fn red_manifesto_item_not_table() {
    let result = red_manifesto(String::from("manifest_items = [1, 2]\n"));
    assert!(matches!(result, Err(ManifestError::ItemNotTable(0))));
}

#[test]
fn red_manifesto_missing_source_names_field_and_index() {
    let content = r#"
[[manifest_items]]
source = "a"
destination = "b"

[[manifest_items]]
destination = "./config/nvim"
"#;
    let result = red_manifesto(String::from(content));
    assert!(matches!(
        result,
        Err(ManifestError::MissingField(1, FieldName::Source))
    ));
}

#[test]
fn red_manifesto_wrong_force_type() {
    let content = r#"
[[manifest_items]]
source = "a"
destination = "b"
force = "yes"
"#;
    let result = red_manifesto(String::from(content));
    assert!(matches!(
        result,
        Err(ManifestError::WrongFieldType(0, FieldName::Force))
    ));
}

#[test]
fn red_manifesto_wrong_source_type() {
    let content = "[[manifest_items]]\nsource = 5\ndestination = \"b\"\n";
    let result = red_manifesto(String::from(content));
    assert!(matches!(
        result,
        Err(ManifestError::WrongFieldType(0, FieldName::Source))
    ));
}

#[test]
fn red_manifesto_empty_array_gives_no_items() {
    let result = red_manifesto(String::from("manifest_items = []\n")).expect("to get result");
    assert_eq!(result.manifest_items.len(), 0);
}

#[test]
fn red_manifesto_ignores_other_keys() {
    let content = "title = \"mine\"\n[[manifest_items]]\nsource = \"x\"\ndestination = \"y\"\nnote = 3\n";
    let result = red_manifesto(String::from(content)).expect("to get result");
    assert_eq!(result.manifest_items.len(), 1);
    assert_eq!(result.manifest_items[0].source, "x");
    assert_eq!(result.manifest_items[0].destination, "y");
}

#[test]
fn decode_item_defaults_force_to_false() {
    let raw = RawItem {
        source: RawField::Present(String::from("nvim")),
        destination: RawField::Present(String::from(".config/nvim")),
        force: RawField::Missing,
    };
    let item = decode_item(&raw, 0).ok().expect("to get item");
    assert_eq!(item.source, "nvim");
    assert_eq!(item.destination, ".config/nvim");
    assert!(!item.force);
}

#[test]
fn decode_item_missing_destination() {
    let raw = RawItem {
        source: RawField::Present(String::from("nvim")),
        destination: RawField::Missing,
        force: RawField::Present(true),
    };
    assert!(matches!(
        decode_item(&raw, 3),
        Err(ManifestError::MissingField(3, FieldName::Destination))
    ));
}

#[test]
fn decode_item_both_missing_reports_source_first() {
    let raw = RawItem {
        source: RawField::Missing,
        destination: RawField::Missing,
        force: RawField::Missing,
    };
    assert!(matches!(
        decode_item(&raw, 0),
        Err(ManifestError::MissingField(0, FieldName::Source))
    ));
}

#[test]
fn decode_manifest_first_bad_entry_wins() {
    let good = RawItem {
        source: RawField::Present(String::from("a")),
        destination: RawField::Present(String::from("b")),
        force: RawField::Present(true),
    };
    let bad = RawItem {
        source: RawField::Present(String::from("c")),
        destination: RawField::WrongType,
        force: RawField::Missing,
    };
    let raw = RawManifest {
        manifest_items: RawField::Present(vec![
            RawField::Present(good),
            RawField::WrongType,
            RawField::Present(bad),
        ]),
    };
    assert!(matches!(
        decode_manifest(&raw),
        Err(ManifestError::ItemNotTable(1))
    ));
}

#[test]
fn decode_manifest_missing_items() {
    let raw = RawManifest { manifest_items: RawField::Missing };
    assert!(matches!(decode_manifest(&raw), Err(ManifestError::MissingItems)));
}
