use kafka_wire_codegen::api::declarations::render_declared_structs;
use kafka_wire_codegen::api::file::render_api;
use kafka_wire_codegen::api::imports::spell;
use kafka_wire_codegen::api::metadata::{api_descriptor_name, descriptor_name};
use kafka_wire_codegen::api::symbol::ExternalSymbol;
use kafka_wire_codegen::group::{ApiGroup, MessageSource};
use kafka_wire_codegen::schema::{
    DefaultValue, Field, FieldName, FieldType, Message, MessageKind, MessageName, StructDeclaration, StructOrigin,
    StructRef, StructTable,
};
use kafka_wire_codegen::tag_assertions::{render_tag_boundaries, render_tag_claims};
use kafka_wire_codegen::text::RustText;
use kafka_wire_codegen::versions::VersionSet;

fn versions(spec: &str) -> VersionSet {
    VersionSet::parse(spec).unwrap_or_else(|| panic!("parse version set `{spec}`"))
}

fn field(name: &str, ty: FieldType, present: &str) -> Field {
    let default = match ty {
        FieldType::Int32 | FieldType::Int16 => DefaultValue::Integer(0),
        FieldType::Struct(_) => DefaultValue::StructDefaults,
        _ => DefaultValue::Empty,
    };
    Field {
        name: FieldName::new(name),
        ty,
        versions: versions(present),
        nullable_versions: VersionSet::none(),
        tagged_versions: VersionSet::none(),
        tag: None,
        default,
        ignorable: false,
        flexible_versions: None,
        about: String::new(),
        fields: Vec::new(),
    }
}

fn tagged(mut field: Field, tag: u32) -> Field {
    field.tagged_versions = field.versions.duplicate();
    field.tag = Some(tag);
    field
}

fn message(name: &str, kind: MessageKind, api_key: i16, valid: &str, flexible: &str, fields: Vec<Field>) -> Message {
    Message {
        api_key: Some(api_key),
        kind,
        name: MessageName::new(name),
        valid_versions: versions(valid),
        flexible_versions: versions(flexible),
        latest_version_unstable: false,
        common_structs: Vec::new(),
        fields,
        structs: StructTable { declarations: Vec::new() },
    }
}

fn source(message: Message) -> MessageSource {
    let filename = format!("{}.json", message.name.protocol());
    MessageSource { message, filename, sha256: String::new() }
}

fn group(request: Message, response: Message) -> ApiGroup {
    ApiGroup::pair(source(request), source(response)).expect("a request and its response pair")
}

/// `TopicsRequest`: one inline array of `TopicData`, whose `Partition`
/// member arrives at version 1 of a message valid from 0.
fn topics_request() -> Message {
    let owner = MessageName::new("TopicsRequest");
    let mut topics = field(
        "Topics",
        FieldType::Array(Box::new(FieldType::Struct(StructRef::scoped(&owner, "TopicData")))),
        "0+",
    );
    topics.fields = vec![field("Name", FieldType::String, "0+"), field("Partition", FieldType::Int32, "1+")];
    let mut request = message("TopicsRequest", MessageKind::Request, 0, "0-2", "1+", vec![topics]);
    request.structs = StructTable {
        declarations: vec![StructDeclaration {
            name: StructRef::scoped(&owner, "TopicData"),
            origin: StructOrigin::Inline,
            versions: versions("0-2"),
        }],
    };
    request
}

#[test]
fn the_unstable_flag_reaches_pair_metadata_in_a_small_corpus() {
    let mut unstable_request = message("InitProducerIdRequest", MessageKind::Request, 22, "0-5", "2+", Vec::new());
    unstable_request.latest_version_unstable = true;
    let groups = vec![
        group(
            message("ProduceRequest", MessageKind::Request, 0, "0-2", "none", Vec::new()),
            message("ProduceResponse", MessageKind::Response, 0, "0-2", "none", Vec::new()),
        ),
        group(unstable_request, message("InitProducerIdResponse", MessageKind::Response, 22, "0-5", "2+", Vec::new())),
    ];
    let mut unstable = Vec::new();
    for group in &groups {
        let rendered = render_api(group, "abc123").unwrap_or_else(|error| panic!("render: {}", error.describe()));
        let pair_descriptor = api_descriptor_name(group);
        let marker = format!("pub const {pair_descriptor}: ApiDescriptor");
        let reflected = rendered
            .split_once(&marker)
            .map(|(_, tail)| tail.split_once(");").map_or(tail, |(body, _)| body))
            .unwrap_or_else(|| panic!("{pair_descriptor} is missing"));
        let flag = group.request.message.latest_version_unstable;
        assert!(reflected.trim_end().ends_with(&format!("{flag},")), "{pair_descriptor} dropped its unstable flag");
        for message in [&group.request.message, &group.response.message] {
            let descriptor = descriptor_name(message);
            assert!(rendered.contains(&format!("pub const {descriptor}: MessageDescriptor")));
        }
        let typed = format!("const API_DESCRIPTOR: &'static ApiDescriptor = &super::{pair_descriptor};");
        assert!(rendered.contains(&typed), "the request does not point to its pair descriptor");
        if flag {
            unstable.push(pair_descriptor);
        }
    }
    assert_eq!(unstable, ["INIT_PRODUCER_ID_API"]);
}

#[test]
fn every_declared_structure_of_a_small_message_recurses_through_each_retained_field() {
    let request = topics_request();
    let mut rust = RustText::default();
    render_declared_structs(&mut rust, &request).unwrap_or_else(|error| panic!("render: {}", error.describe()));
    let rendered = rust.finish();

    // One structure, flexible from version 1: two members and its retained tags.
    assert_eq!(rendered.matches("impl RetainedSize for").count(), 1);
    assert_eq!(rendered.matches("RetainedSize::retained_size").count(), 3);
}

#[test]
fn a_nested_conditional_field_is_refused_before_encoding_can_skip_it() {
    let request = topics_request();
    let mut rust = RustText::default();
    render_declared_structs(&mut rust, &request).unwrap_or_else(|error| panic!("render: {}", error.describe()));
    let rendered = rust.finish();

    assert_eq!(rendered.matches("fn validate_for_version").count(), 1);
    assert_eq!(rendered.matches("::FieldNotRepresentable").count(), 1);
}

#[test]
fn a_module_that_declares_no_clashing_struct_writes_every_name_bare() {
    let ordinary = message("ProduceRequest", MessageKind::Request, 0, "0-2", "none", Vec::new());
    for symbol in [
        ExternalSymbol::ApiDescriptor,
        ExternalSymbol::ApiKey,
        ExternalSymbol::ApiVersion,
        ExternalSymbol::Bytes,
        ExternalSymbol::BytesMut,
        ExternalSymbol::DecodeError,
        ExternalSymbol::Decoder,
        ExternalSymbol::EncodeError,
        ExternalSymbol::EncodeTarget,
        ExternalSymbol::Encoder,
        ExternalSymbol::KafkaDecode,
        ExternalSymbol::KafkaEncode,
        ExternalSymbol::KnownTags,
        ExternalSymbol::RetainedFootprint,
        ExternalSymbol::RetainedSize,
        ExternalSymbol::StrBytes,
        ExternalSymbol::TagOutcome,
        ExternalSymbol::TaggedFields,
        ExternalSymbol::TaggedFieldsError,
        ExternalSymbol::Uuid,
        ExternalSymbol::VersionRange,
        ExternalSymbol::KafkaMessage,
        ExternalSymbol::MessageDescriptor,
        ExternalSymbol::KafkaRequest,
        ExternalSymbol::KafkaResponse,
        ExternalSymbol::ProtocolEq,
    ] {
        assert_eq!(spell(&ordinary, symbol), symbol.name(), "`produce_request` must import `{}`", symbol.name());
    }
}

fn api_versions_group() -> ApiGroup {
    group(
        message("ApiVersionsRequest", MessageKind::Request, 18, "0-3", "3+", Vec::new()),
        message(
            "ApiVersionsResponse",
            MessageKind::Response,
            18,
            "0-3",
            "3+",
            vec![field("ErrorCode", FieldType::Int16, "0+"), tagged(field("ZkMigrationReady", FieldType::Int16, "3+"), 1)],
        ),
    )
}

fn heartbeat_group() -> ApiGroup {
    group(
        message(
            "BrokerHeartbeatRequest",
            MessageKind::Request,
            63,
            "0-1",
            "0+",
            vec![field("BrokerId", FieldType::Int32, "0+"), tagged(field("OfflineLogDirs", FieldType::Int32, "1+"), 0)],
        ),
        message("BrokerHeartbeatResponse", MessageKind::Response, 63, "0-1", "0+", Vec::new()),
    )
}

#[test]
fn every_known_tag_of_a_small_corpus_receives_one_active_runtime_assertion() {
    let groups = vec![api_versions_group(), heartbeat_group()];
    let rendered = render_tag_claims(&groups, &Vec::new(), "abc123")
        .unwrap_or_else(|error| panic!("render tag claims: {}", error.describe()));

    assert_eq!(rendered.matches("assert_claim(\n").count(), 2);
    assert!(rendered.contains(
        "let value = crate::ApiVersionsResponse {\n        \
         unknown_tagged_fields: retained_tag(1),\n        ..Default::default()\n    };\n    \
         assert_claim(\n        &value.validate_known_tag_ownership(ApiVersion::new(3)),"
    ));
    assert!(rendered.contains(
        "let value = crate::BrokerHeartbeatRequest {\n        \
         unknown_tagged_fields: retained_tag(0),\n        ..Default::default()\n    };\n    \
         assert_claim(\n        &value.validate_known_tag_ownership(ApiVersion::new(1)),"
    ));
}

#[test]
fn every_delayed_tag_of_a_small_corpus_receives_its_exact_ownership_boundary() {
    let groups = vec![api_versions_group(), heartbeat_group()];
    let rendered = render_tag_boundaries(&groups, &Vec::new(), "abc123")
        .unwrap_or_else(|error| panic!("render tag boundaries: {}", error.describe()));

    // Only the heartbeat tag activates after its owner became flexible.
    assert_eq!(rendered.matches("assert_boundary(\n").count(), 1);
    assert!(rendered.contains(
        "&value.validate_known_tag_ownership(ApiVersion::new(0)),\n        \
         &value.validate_known_tag_ownership(ApiVersion::new(1)),"
    ));
}
