use kafka_wire_codegen::fuzz_dispatch::render_fuzz_dispatch;
use kafka_wire_codegen::group::{ApiGroup, MessageSource};
use kafka_wire_codegen::header_version::{render_header_version, HeaderOverrides, ResponseHeaderException};
use kafka_wire_codegen::naming::{field_identifier, screaming_snake_case, snake_case};
use kafka_wire_codegen::order::sort_texts;
use kafka_wire_codegen::registry::render_registry;
use kafka_wire_codegen::schema::{
    GenerationError, Message, MessageKind, MessageName, StructTable,
};
use kafka_wire_codegen::source::{
    append_component, canonical_bytes, canonical_separators, formatter_bytes, hex, hex_digest,
    verify_source_digest,
};
use kafka_wire_codegen::versions::VersionSet;

const EMPTY_SHA256: &str = "e3b0c44298fc1c149afbf4c8996fb92427ae41e4649b934ca495991b7852b855";
const ABC_SHA256: &str = "ba7816bf8f01cfea414140de5dae2223b00361a396177a9cb410ff61f20015ad";

#[test]
fn hex_spells_each_byte_as_two_lower_case_digits() {
    assert_eq!(hex(&[0x00, 0x0f, 0xa5, 0xff]), "000fa5ff");
    assert_eq!(hex(&[]), "");
}

#[test]
fn the_digest_of_a_buffer_is_its_sha256_in_hex() {
    assert_eq!(hex_digest(b""), EMPTY_SHA256);
    assert_eq!(hex_digest(b"abc"), ABC_SHA256);
    assert_eq!(hex_digest(b"abc").len(), 64);
}

#[test]
fn a_buffer_matching_its_recorded_digest_is_accepted() {
    assert!(verify_source_digest("spec/Abc.json", b"abc", ABC_SHA256).is_ok());
}

#[test]
fn a_drifted_buffer_is_refused_with_both_digests() {
    let error = verify_source_digest("spec/Abc.json", b"abd", ABC_SHA256).err().expect("a drifted buffer was accepted");
    match &error {
        GenerationError::SourceHash { path, expected, actual } => {
            assert_eq!(path, "spec/Abc.json");
            assert_eq!(expected, ABC_SHA256);
            assert_eq!(actual, &hex_digest(b"abd"));
            assert_ne!(actual, ABC_SHA256);
        },
        other => panic!("unexpected refusal {other:?}"),
    }
    let text = error.describe();
    assert!(text.contains("spec/Abc.json"));
    assert!(text.contains(ABC_SHA256));
}

#[test]
fn a_component_is_framed_by_two_big_endian_lengths() {
    let mut output = vec![9u8];
    append_component(&mut output, "ab", &[1, 2, 3]);
    assert_eq!(output, vec![9, 0, 0, 0, 0, 0, 0, 0, 2, b'a', b'b', 0, 0, 0, 0, 0, 0, 0, 3, 1, 2, 3]);
}

#[test]
fn canonical_bytes_do_not_depend_on_walk_order() {
    let forward = canonical_bytes(vec![("a/x.json".to_owned(), vec![1]), ("b.json".to_owned(), vec![2, 2])]);
    let backward = canonical_bytes(vec![("b.json".to_owned(), vec![2, 2]), ("a/x.json".to_owned(), vec![1])]);
    assert_eq!(forward, backward);

    let mut expected = Vec::new();
    append_component(&mut expected, "a/x.json", &[1]);
    append_component(&mut expected, "b.json", &[2, 2]);
    assert_eq!(forward, expected);
}

#[test]
fn the_formatter_identity_comes_first_and_files_keep_their_order() {
    let files = vec![("rustfmt.toml".to_owned(), vec![7]), (".rustfmt.toml".to_owned(), vec![8])];
    let mut expected = Vec::new();
    append_component(&mut expected, "identity", b"rustfmt 1.8.0");
    append_component(&mut expected, "rustfmt.toml", &[7]);
    append_component(&mut expected, ".rustfmt.toml", &[8]);
    assert_eq!(formatter_bytes("rustfmt 1.8.0", &files), expected);
}

#[test]
fn separators_are_canonical_forward_slashes() {
    assert_eq!(canonical_separators("spec\\common\\x.json"), "spec/common/x.json");
    assert_eq!(canonical_separators("spec/x.json"), "spec/x.json");
}

#[test]
fn names_are_cased_by_word() {
    assert_eq!(snake_case("VersionValue"), "version_value");
    assert_eq!(snake_case("ApiVersionsRequest"), "api_versions_request");
    assert_eq!(screaming_snake_case("ProduceRequest"), "PRODUCE_REQUEST");
    assert_eq!(field_identifier("Type"), "type_");
    assert_eq!(field_identifier("TopicName"), "topic_name");
}

#[test]
fn sorted_texts_ascend_and_keep_every_entry() {
    let sorted = sort_texts(&vec!["b".to_owned(), "a".to_owned(), "ab".to_owned(), "a".to_owned()]);
    assert_eq!(sorted, vec!["a", "a", "ab", "b"]);
}

fn keyed(name: &str, kind: MessageKind, api_key: i16) -> MessageSource {
    MessageSource {
        message: Message {
            api_key: Some(api_key),
            kind,
            name: MessageName::new(name),
            valid_versions: VersionSet::parse("0-2").expect("0-2"),
            flexible_versions: VersionSet::parse("1+").expect("1+"),
            latest_version_unstable: false,
            common_structs: Vec::new(),
            fields: Vec::new(),
            structs: StructTable { declarations: Vec::new() },
        },
        filename: format!("{name}.json"),
        sha256: EMPTY_SHA256.to_owned(),
    }
}

#[test]
fn a_request_and_its_response_pair_into_one_module() {
    let group = ApiGroup::pair(
        keyed("ProduceRequest", MessageKind::Request, 0),
        keyed("ProduceResponse", MessageKind::Response, 0),
    )
    .expect("a request and its response did not pair");
    assert_eq!(group.api_key, 0);
    assert_eq!(group.module_name(), "produce");
}

#[test]
fn schemas_of_different_keys_do_not_pair() {
    assert!(ApiGroup::pair(
        keyed("ProduceRequest", MessageKind::Request, 0),
        keyed("FetchResponse", MessageKind::Response, 1),
    )
    .is_none());
    assert!(ApiGroup::pair(
        keyed("ProduceResponse", MessageKind::Response, 0),
        keyed("ProduceRequest", MessageKind::Request, 0),
    )
    .is_none());
}

#[test]
fn the_registry_lists_both_directions_of_every_group() {
    let group = ApiGroup::pair(
        keyed("ProduceRequest", MessageKind::Request, 0),
        keyed("ProduceResponse", MessageKind::Response, 0),
    )
    .expect("pair");
    let rendered = render_registry(&vec![group], "abc123");
    assert!(rendered.contains("//! `abc123`."));
    assert!(rendered.contains("pub const MESSAGE_DESCRIPTORS: &[MessageDescriptor] = &["));
    assert!(rendered.contains("    super::PRODUCE_REQUEST_DESCRIPTOR,"));
    assert!(rendered.contains("    super::PRODUCE_RESPONSE_DESCRIPTOR,"));
}

#[test]
fn every_header_exception_returns_ahead_of_the_rule() {
    let overrides = HeaderOverrides {
        response_header_exceptions: vec![ResponseHeaderException {
            api_key: 18,
            since: 3,
            header_version: 0,
            reason: "ApiVersions responses stay on header v0.".to_owned(),
        }],
    };
    let rendered = render_header_version(&overrides, "abc123");
    let exception = rendered.find("if api_key.value() == 18 && version.value() >= 3 {").expect("exception rendered");
    let rule = rendered.find("i16::from(flexible)").expect("rule rendered");
    assert!(exception < rule);
    assert!(rendered.contains("// ApiVersions responses stay on header v0."));
    assert!(rendered.contains("return 0;"));
    assert!(rendered.contains("pub const fn request_header_version(flexible: bool) -> i16 {"));
}

fn unkeyed(name: &str, kind: MessageKind, valid: &str) -> MessageSource {
    let mut source = keyed(name, kind, 0);
    source.message.api_key = None;
    source.message.valid_versions = VersionSet::parse(valid).expect("version set");
    source
}

fn small_corpus() -> (Vec<ApiGroup>, Vec<MessageSource>) {
    let group = ApiGroup::pair(
        keyed("ProduceRequest", MessageKind::Request, 0),
        keyed("ProduceResponse", MessageKind::Response, 0),
    )
    .expect("pair");
    let unkeyed = vec![
        unkeyed("RequestHeader", MessageKind::Header, "1-2"),
        unkeyed("ResponseHeader", MessageKind::Header, "0-1"),
        unkeyed("RetiredData", MessageKind::Data, "none"),
    ];
    (vec![group], unkeyed)
}

#[test]
fn every_versioned_schema_of_a_small_corpus_has_one_typed_dispatch_arm() {
    let (groups, unkeyed) = small_corpus();
    let rendered = render_fuzz_dispatch(&groups, &unkeyed, "abc123")
        .unwrap_or_else(|error| panic!("render fuzz dispatch: {}", error.describe()));

    for (name, first, last) in
        [("ProduceRequest", 0, 2), ("ProduceResponse", 0, 2), ("RequestHeader", 1, 2), ("ResponseHeader", 0, 1)]
    {
        let arm = format!("if let Some(version) = select_version(version_selector, {first}, {last})");
        let call = format!("round_trip::<kafka_wire::{name}>(body, version)");
        assert!(rendered.contains(&arm), "{name} did not receive its exact version bounds");
        assert_eq!(rendered.matches(&call).count(), 1, "{name} did not receive exactly one typed dispatch call");
    }
    assert_eq!(rendered.matches("round_trip::<kafka_wire::").count(), 4);
    assert_eq!(rendered.matches("if let Some(version) = select_version").count(), 4);
    assert!(rendered.contains("match usize::from(message_selector) % 4 {"));
    assert!(!rendered.contains("RetiredData"));
}

#[test]
fn a_corpus_of_headers_alone_still_dispatches() {
    let unkeyed = vec![unkeyed("RequestHeader", MessageKind::Header, "1-2")];
    let rendered = render_fuzz_dispatch(&Vec::new(), &unkeyed, "abc123")
        .unwrap_or_else(|error| panic!("render fuzz dispatch: {}", error.describe()));
    assert_eq!(rendered.matches("round_trip::<kafka_wire::RequestHeader>(body, version)").count(), 1);
}

#[test]
fn a_corpus_with_no_versioned_schema_is_refused() {
    let unkeyed = vec![unkeyed("RetiredData", MessageKind::Data, "none")];
    assert!(render_fuzz_dispatch(&Vec::new(), &unkeyed, "abc123").is_err());
}

#[test]
fn selector_arithmetic_represents_the_full_i16_version_domain() {
    let (groups, unkeyed) = small_corpus();
    let rendered = render_fuzz_dispatch(&groups, &unkeyed, "abc123")
        .unwrap_or_else(|error| panic!("render fuzz dispatch: {}", error.describe()));

    assert!(rendered.contains("i32::from(last).checked_sub(i32::from(first))"));
    assert!(!rendered.contains("unwrap_or"));
}
