use kafka_wire_codegen::api::prose::mark_protocol_identifier;
use kafka_wire_codegen::api::tag_plan::known_tag_plans;
use kafka_wire_codegen::field::types::separated;
use kafka_wire_codegen::field::codec::{read_expression, write_statement};
use kafka_wire_codegen::field::validate::validate_supported;
use kafka_wire_codegen::group::MessageSource;
use kafka_wire_codegen::schema::{
    DefaultValue, Field, FieldName, FieldType, Message, MessageKind, MessageName, Scope, StructTable,
};
use kafka_wire_codegen::source::{canonical_bytes, order_sources};
use kafka_wire_codegen::tag_census::{sort_census, TagEntry};
use kafka_wire_codegen::text::RustText;
use kafka_wire_codegen::versions::VersionSet;

fn versions(spec: &str) -> VersionSet {
    VersionSet::parse(spec).unwrap_or_else(|| panic!("parse version set `{spec}`"))
}

fn field(name: &str, ty: FieldType, present: &str) -> Field {
    Field {
        name: FieldName::new(name),
        ty,
        versions: versions(present),
        nullable_versions: VersionSet::none(),
        tagged_versions: VersionSet::none(),
        tag: None,
        default: DefaultValue::Empty,
        ignorable: false,
        flexible_versions: None,
        about: String::new(),
        fields: Vec::new(),
    }
}

fn message(name: &str, api_key: Option<i16>, valid: &str, flexible: &str, fields: Vec<Field>) -> Message {
    Message {
        api_key,
        kind: MessageKind::Request,
        name: MessageName::new(name),
        valid_versions: versions(valid),
        flexible_versions: versions(flexible),
        latest_version_unstable: false,
        common_structs: Vec::new(),
        fields,
        structs: StructTable { declarations: Vec::new() },
    }
}

#[test]
fn a_validated_field_is_read_with_the_method_it_is_written_with() {
    let mut records = field("Records", FieldType::Records, "0+");
    records.nullable_versions = versions("0+");
    records.default = DefaultValue::Null;
    let message = message("ProbeRequest", Some(0), "0-4", "2+", vec![records]);
    assert!(validate_supported(&message).is_ok());
    let scope = Scope::of(&message);
    let read = read_expression(&message.fields[0], &scope).expect("read");
    let write = write_statement(&message.fields[0], &scope).expect("write");
    assert_eq!(
        read,
        "if Self::is_flexible(version) { decoder.read_compact_nullable_bytes()? } \
         else { decoder.read_nullable_bytes()? }"
    );
    assert_eq!(
        write,
        "if Self::is_flexible(version) { encoder.write_compact_nullable_bytes(self.records.as_deref())?; } \
         else { encoder.write_nullable_bytes(self.records.as_deref())?; }"
    );
}

#[test]
fn prose_with_every_line_break_stays_inside_doc_lines() {
    let mut rust = RustText::default();
    rust.doc_line("a\rb\r\nc\u{2028}\u{2029}d\n");
    let rendered = rust.finish();
    for line in rendered.lines() {
        assert!(line.starts_with("///"), "a prose line escaped its doc comment: {line:?}");
    }
    assert_eq!(rendered, "/// a\n/// b\n/// c\n/// \n/// d\n/// \n");
}

#[test]
fn different_file_lists_never_frame_to_the_same_bytes() {
    let split_label = canonical_bytes(vec![("ab".to_owned(), vec![1])]);
    let split_payload = canonical_bytes(vec![("a".to_owned(), vec![b'b', 1])]);
    let two_files = canonical_bytes(vec![("a".to_owned(), Vec::new()), ("b".to_owned(), vec![1])]);
    assert_ne!(split_label, split_payload);
    assert_ne!(split_label, two_files);
    assert_ne!(split_payload, two_files);
}

fn source(name: &str, api_key: Option<i16>) -> MessageSource {
    MessageSource {
        message: message(name, api_key, "0", "none", Vec::new()),
        filename: format!("{name}.json"),
        sha256: String::new(),
    }
}

#[test]
fn sources_come_out_by_key_then_name() {
    let ordered = order_sources(vec![
        source("FetchRequest", Some(1)),
        source("ProduceResponse", Some(0)),
        source("RequestHeader", None),
        source("ProduceRequest", Some(0)),
        source("LeaderChangeMessage", None),
    ]);
    let names: Vec<&str> = ordered.iter().map(|s| s.message.name.protocol()).collect();
    assert_eq!(
        names,
        vec!["LeaderChangeMessage", "RequestHeader", "ProduceRequest", "ProduceResponse", "FetchRequest"]
    );
}

fn entry(rust_type: &str, version: i16, tag: u32) -> TagEntry {
    TagEntry { rust_type: rust_type.to_owned(), owner: rust_type.to_owned(), version, tag }
}

#[test]
fn the_census_comes_out_by_type_then_version_then_tag() {
    let sorted = sort_census(vec![entry("B", 0, 0), entry("A", 2, 1), entry("A", 1, 3), entry("A", 1, 0)]);
    let keys: Vec<(String, i16, u32)> = sorted.iter().map(|e| (e.rust_type.clone(), e.version, e.tag)).collect();
    assert_eq!(
        keys,
        vec![("A".to_owned(), 1, 0), ("A".to_owned(), 1, 3), ("A".to_owned(), 2, 1), ("B".to_owned(), 0, 0)]
    );
}

#[test]
fn known_tags_are_planned_in_ascending_tag_order() {
    let mut high = field("High", FieldType::Int32, "0+");
    high.tag = Some(3);
    high.tagged_versions = versions("0+");
    let mut low = field("Low", FieldType::Int32, "0+");
    low.tag = Some(1);
    low.tagged_versions = versions("0+");
    let message = message("ProbeRequest", Some(0), "0-4", "0+", vec![high, low]);
    let scope = Scope::of(&message);
    let plans = known_tag_plans(&message.fields, &scope);
    let order: Vec<(u32, usize)> = plans.iter().map(|p| (p.tag, p.field_index)).collect();
    assert_eq!(order, vec![(1, 1), (3, 0)]);
}

#[test]
fn marking_wraps_only_protocol_runs_and_adds_nothing_else() {
    let marked = mark_protocol_identifier("0=NOT_REQUESTED,isolationLevel;plain");
    assert_eq!(marked, "0=`NOT_REQUESTED`,`isolationLevel`;plain");
    assert_eq!(marked.replace('`', ""), "0=NOT_REQUESTED,isolationLevel;plain");
}

#[test]
fn a_separated_literal_reads_back_as_its_decimal_digits() {
    for value in [0_i64, 7, 999, 1_000, -1_234_567, i64::MIN, i64::MAX] {
        let grouped = separated(value);
        assert_eq!(grouped.replace('_', ""), value.to_string(), "{grouped}");
    }
    assert_eq!(separated(-1_234_567), "-1_234_567");
}
