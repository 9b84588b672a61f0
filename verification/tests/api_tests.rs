use kafka_wire_codegen::api::codec::render_decode;
use kafka_wire_codegen::fixtures::{render_adversarial_decode_fixture, render_adversarial_defaults_fixture};
use kafka_wire_codegen::api::imports::spell;
use kafka_wire_codegen::api::symbol::ExternalSymbol;
use kafka_wire_codegen::schema::{
    DefaultValue, Field, FieldName, FieldType, Message, MessageKind, MessageName, Scope, StructDeclaration,
    StructOrigin, StructRef, StructTable,
};
use kafka_wire_codegen::tag_assertions::{render_tag_boundaries, render_tag_claims};
use kafka_wire_codegen::text::RustText;
use kafka_wire_codegen::versions::VersionSet;

fn versions(spec: &str) -> VersionSet {
    VersionSet::parse(spec).unwrap_or_else(|| panic!("parse version set `{spec}`"))
}

fn int32_field(name: &str, present: &str) -> Field {
    Field {
        name: FieldName::new(name),
        ty: FieldType::Int32,
        versions: versions(present),
        nullable_versions: VersionSet::none(),
        tagged_versions: VersionSet::none(),
        tag: None,
        default: DefaultValue::Integer(0),
        ignorable: false,
        flexible_versions: None,
        about: String::new(),
        fields: Vec::new(),
    }
}

/// `LocalCollisionRequest`: two int32 fields whose snake-case names once
/// collided with the emitter's own decode locals.
fn local_collision_request() -> Message {
    Message {
        api_key: Some(1),
        kind: MessageKind::Request,
        name: MessageName::new("LocalCollisionRequest"),
        valid_versions: versions("0"),
        flexible_versions: versions("none"),
        latest_version_unstable: false,
        common_structs: Vec::new(),
        fields: vec![int32_field("Version", "0"), int32_field("VersionValue", "0")],
        structs: StructTable { declarations: Vec::new() },
    }
}

#[test]
fn sibling_names_cannot_alias_compiler_owned_decode_locals() {
    let message = local_collision_request();
    let scope = Scope::of(&message);
    let mut rust = RustText::default();
    render_decode(&mut rust, &scope, false)
        .unwrap_or_else(|error| panic!("render fixture: {}", error.describe()));
    let rendered = rust.finish();

    assert!(rendered.contains("let __kw_field_0 = decoder.read_i32()?;"));
    assert!(rendered.contains("let __kw_field_1 = decoder.read_i32()?;"));
    assert!(rendered.contains("version: __kw_field_0,"));
    assert!(rendered.contains("version_value: __kw_field_1,"));
    assert!(!rendered.contains("let version_value ="));
}

#[test]
fn an_empty_claim_census_emits_no_unused_verification_vocabulary() {
    let rendered = render_tag_claims(&Vec::new(), &Vec::new(), "commit")
        .unwrap_or_else(|error| panic!("render empty claims: {}", error.describe()));

    assert!(!rendered.contains("use kafka_wire_core"));
    assert!(!rendered.contains("fn retained_tag"));
    assert!(rendered.contains("fn assert_all_active_tag_claims()"));
}

#[test]
fn an_empty_boundary_census_emits_no_unused_verification_vocabulary() {
    let rendered = render_tag_boundaries(&Vec::new(), &Vec::new(), "commit")
        .unwrap_or_else(|error| panic!("render empty boundaries: {}", error.describe()));

    assert!(!rendered.contains("use kafka_wire_core"));
    assert!(!rendered.contains("fn retained_tag"));
    assert!(rendered.contains("fn assert_all_tag_activation_boundaries()"));
}

#[test]
fn the_decode_fixture_keeps_every_sibling_in_its_own_local() {
    let rendered = render_adversarial_decode_fixture()
        .unwrap_or_else(|error| panic!("render decode fixture: {}", error.describe()));

    assert!(rendered.contains("let __kw_field_0 = decoder.read_i32()?;"));
    assert!(rendered.contains("let __kw_field_1 = decoder.read_i32()?;"));
    assert!(rendered.contains("version_value: __kw_field_1,"));
    assert!(!rendered.contains("let version_value ="));
    assert!(rendered.contains("pub struct AdversarialDecodeRequest"));
    assert!(rendered.contains("pub struct AdversarialDecodeResponse"));
}

#[test]
fn the_defaults_fixture_keeps_every_float_payload() {
    let rendered = render_adversarial_defaults_fixture()
        .unwrap_or_else(|error| panic!("render defaults fixture: {}", error.describe()));

    assert!(rendered.contains("f64::from_bits(0x7ff8_0000_0000_0000_u64)"));
    assert!(rendered.contains("f64::from_bits(0x8000_0000_0000_0000_u64)"));
    assert!(rendered.contains("pub struct AdversarialDefaultsRequest"));
}

fn module_with(name: &str, kind: MessageKind, declared: &[&str]) -> Message {
    let owner = MessageName::new(name);
    let declarations = declared
        .iter()
        .map(|declared| StructDeclaration {
            name: StructRef::scoped(&owner, declared),
            origin: StructOrigin::Inline,
            versions: versions("0-3"),
        })
        .collect();
    Message {
        api_key: Some(18),
        kind,
        name: owner,
        valid_versions: versions("0-3"),
        flexible_versions: versions("3+"),
        latest_version_unstable: false,
        common_structs: Vec::new(),
        fields: Vec::new(),
        structs: StructTable { declarations },
    }
}

#[test]
fn the_one_clashing_module_qualifies_that_name_and_only_that_name() {
    let api_versions = module_with("ApiVersionsResponse", MessageKind::Response, &["ApiVersion", "SupportedFeatureKey"]);

    assert_eq!(spell(&api_versions, ExternalSymbol::ApiVersion), "kafka_wire_core::ApiVersion");
    assert_eq!(spell(&api_versions, ExternalSymbol::Decoder), "Decoder");
    assert_eq!(spell(&api_versions, ExternalSymbol::KafkaMessage), "KafkaMessage");
}

#[test]
fn a_crate_local_name_would_be_qualified_against_the_crate_not_the_wire() {
    let message = module_with("KafkaRequest", MessageKind::Request, &[]);

    assert_eq!(spell(&message, ExternalSymbol::KafkaRequest), "crate::KafkaRequest");
}

#[test]
fn a_module_scoped_struct_is_spelled_as_upstream_declares_it() {
    let owner = MessageName::new("ApiVersionsResponse");
    assert_eq!(StructRef::scoped(&owner, "ApiVersion").rust_type(), "ApiVersion");
    assert_eq!(StructRef::qualify(&owner, "ApiVersion").rust_type(), "ApiVersionsResponseApiVersion");
}
