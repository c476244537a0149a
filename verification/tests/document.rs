use ml_metadata::Attribute;
use ml_metadata::Creator;
use ml_metadata::FileAttr;
use ml_metadata::Metadata;
use ml_metadata::Property;
use ml_metadata::bool_is_false;
use ml_metadata::metadata_document;
use ml_metadata::metadata_for;
use ml_metadata::metadata_to_json;

const IMAGE_URI: &str = "https://aankor.space/leader.jpeg";

#[test]
fn document_for_index_zero() {
    let body = metadata_document(0);
    assert_eq!(
        body,
        "{\"name\":\"Marinade Leader 0\",\"symbol\":\"ML\",\"description\":\"Marinade Crew Leader\",\"image\":\"https://aankor.space/leader.jpeg\",\"attributes\":[],\"properties\":{\"files\":[{\"uri\":\"https://aankor.space/leader.jpeg\",\"type\":\"image/jpeg\"}],\"creators\":[{\"address\":\"Ev4PX31e4ALCBUeAxRzdGc8tPygV9sTWyk9bJHSzxu4j\",\"share\":0},{\"address\":\"LncCfW24e9cuekEaUJT3RQcgdASWzE3jhwyJ3QDa6Fn\",\"share\":100}]}}"
    );
    assert!(body.starts_with("{\"name\":\"Marinade Leader 0\",\"symbol\":\"ML\",\"description\":"));
}

#[test]
fn document_embeds_any_index() {
    let body = metadata_document(123456789);
    assert!(body.starts_with("{\"name\":\"Marinade Leader 123456789\","));
    let body = metadata_document(u64::MAX);
    assert!(body.starts_with("{\"name\":\"Marinade Leader 18446744073709551615\","));
}

#[test]
fn document_never_names_absent_fields() {
    let body = metadata_document(42);
    assert!(!body.contains("animation_url"));
    assert!(!body.contains("external_url"));
    assert!(!body.contains("category"));
    assert!(!body.contains("cdn"));
    assert!(!body.contains("null"));
}

#[test]
fn metadata_creators_are_fixed() {
    for index in [0u64, 1, 9999, u64::MAX] {
        let m = metadata_for(index);
        let creators = m.properties.creators.expect("creators are always present");
        assert_eq!(creators.len(), 2);
        assert_eq!(creators[0].address, "Ev4PX31e4ALCBUeAxRzdGc8tPygV9sTWyk9bJHSzxu4j");
        assert_eq!(creators[0].share, 0);
        assert_eq!(creators[1].address, "LncCfW24e9cuekEaUJT3RQcgdASWzE3jhwyJ3QDa6Fn");
        assert_eq!(creators[1].share, 100);
        assert_eq!(creators[0].share + creators[1].share, 100);
    }
}

#[test]
fn metadata_fields_are_fixed() {
    let m = metadata_for(7);
    assert_eq!(m.name, "Marinade Leader 7");
    assert_eq!(m.symbol.as_deref(), Some("ML"));
    assert_eq!(m.description, "Marinade Crew Leader");
    assert_eq!(m.image, IMAGE_URI);
    assert!(m.animation_url.is_none());
    assert!(m.external_url.is_none());
    assert!(m.attributes.is_empty());
    assert_eq!(m.properties.files.len(), 1);
    assert_eq!(m.properties.files[0].uri, IMAGE_URI);
    assert_eq!(m.properties.files[0].file_type, "image/jpeg");
    assert!(!m.properties.files[0].cdn);
    assert!(m.properties.category.is_none());
}

#[test]
fn serializer_emits_optional_fields_when_present() {
    let m = Metadata {
        name: "n".to_string(),
        symbol: None,
        description: "d".to_string(),
        image: "i".to_string(),
        animation_url: Some("a".to_string()),
        external_url: Some("e".to_string()),
        attributes: vec![
            Attribute { trait_type: "color".to_string(), value: "red".to_string() },
            Attribute { trait_type: "size".to_string(), value: "xl".to_string() },
        ],
        properties: Property {
            files: vec![FileAttr {
                uri: "u".to_string(),
                file_type: "t".to_string(),
                cdn: true,
            }],
            creators: None,
            category: Some("image".to_string()),
        },
    };
    assert_eq!(
        metadata_to_json(&m),
        "{\"name\":\"n\",\"description\":\"d\",\"image\":\"i\",\"animation_url\":\"a\",\"external_url\":\"e\",\"attributes\":[{\"trait_type\":\"color\",\"value\":\"red\"},{\"trait_type\":\"size\",\"value\":\"xl\"}],\"properties\":{\"files\":[{\"uri\":\"u\",\"type\":\"t\",\"cdn\":true}],\"category\":\"image\"}}"
    );
}

#[test]
fn serializer_escapes_string_contents() {
    let m = Metadata {
        name: "a\"b\\c\nd".to_string(),
        symbol: None,
        description: String::new(),
        image: "\u{1}".to_string(),
        animation_url: None,
        external_url: None,
        attributes: vec![],
        properties: Property { files: vec![], creators: None, category: None },
    };
    assert_eq!(
        metadata_to_json(&m),
        "{\"name\":\"a\\\"b\\\\c\\u000ad\",\"description\":\"\",\"image\":\"\\u0001\",\"attributes\":[],\"properties\":{\"files\":[]}}"
    );
}

#[test]
fn cdn_flag_is_false_and_omitted() {
    let m = metadata_for(3);
    assert!(bool_is_false(&m.properties.files[0].cdn));
    assert!(!metadata_to_json(&m).contains("cdn"));
}
