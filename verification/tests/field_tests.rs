use kafka_wire_codegen::field::codec::{read_expression, write_statement};
use kafka_wire_codegen::field::types::{default_expression, non_default_condition, rust_type, uses_rust_default};
use kafka_wire_codegen::field::usage::{encoded_value_uses_version, inline_write_uses_version};
use kafka_wire_codegen::field::validate::validate_supported;
use kafka_wire_codegen::field::version::presence_condition;
use kafka_wire_codegen::schema::{
    DefaultValue, Field, FieldName, FieldType, FloatDefault, Message, MessageKind, MessageName, Scope, StructRef,
    StructTable,
};
use kafka_wire_codegen::versions::VersionSet;

const OWNER: &str = "ProbeRequest";
const VALID: &str = "0-4";

fn versions(spec: &str) -> VersionSet {
    VersionSet::parse(spec).unwrap_or_else(|| panic!("parse version set `{spec}`"))
}

fn message(valid: &str, flexible: &str, fields: Vec<Field>) -> Message {
    Message {
        api_key: Some(0),
        kind: MessageKind::Request,
        name: MessageName::new(OWNER),
        valid_versions: versions(valid),
        flexible_versions: versions(flexible),
        latest_version_unstable: false,
        common_structs: Vec::new(),
        fields,
        structs: StructTable { declarations: Vec::new() },
    }
}

fn struct_type(declared: &str) -> FieldType {
    FieldType::Struct(StructRef::qualify(&MessageName::new(OWNER), declared))
}

fn field(name: &str, ty: FieldType, present: &str) -> Field {
    Field {
        name: FieldName::new(name),
        ty,
        versions: versions(present),
        nullable_versions: VersionSet::none(),
        tagged_versions: VersionSet::none(),
        tag: None,
        default: DefaultValue::Empty,
        ignorable: false,
        flexible_versions: None,
        about: "Probe field.".to_owned(),
        fields: Vec::new(),
    }
}

fn nullable(mut field: Field) -> Field {
    field.nullable_versions = field.versions.duplicate();
    field.default = DefaultValue::Null;
    field
}

/// The same field, carried in the tagged section under `tag` in every version it exists in.
fn tagged(mut field: Field, tag: u32) -> Field {
    field.tagged_versions = field.versions.duplicate();
    field.tag = Some(tag);
    field
}

#[test]
fn a_fixed_width_field_straddling_the_flexible_boundary_emits_no_gate() {
    let probe = field("Probe", FieldType::Int32, "0+");
    let message = message(VALID, "3+", vec![probe]);
    let scope = Scope::of(&message);
    let probe = &message.fields[0];

    assert_eq!(
        read_expression(probe, &scope).unwrap_or_else(|error| panic!("{}", error.describe())),
        "decoder.read_i32()?"
    );
    assert_eq!(
        write_statement(probe, &scope).unwrap_or_else(|error| panic!("{}", error.describe())),
        "encoder.write_i32(self.probe)?;"
    );
}

#[test]
fn an_array_routed_into_the_scalar_path_is_refused_rather_than_commented() {
    let probe = field("Probe", FieldType::Array(Box::new(FieldType::String)), "0+");
    let message = message(VALID, "none", vec![probe]);
    let scope = Scope::of(&message);
    let probe = &message.fields[0];

    let read = read_expression(probe, &scope)
        .err()
        .unwrap_or_else(|| panic!("an array rendered a scalar read expression"))
        .describe();
    let write = write_statement(probe, &scope)
        .err()
        .unwrap_or_else(|| panic!("an array rendered a scalar write statement"))
        .describe();

    assert!(read.contains("structured block"), "the array read rejection must say where arrays are emitted: {read}");
    assert!(
        write.contains("structured block"),
        "the array write rejection must say where arrays are emitted: {write}"
    );
}

fn format_bits(bits: u64) -> String {
    format!(
        "0x{:04x}_{:04x}_{:04x}_{:04x}_u64",
        bits >> 48,
        (bits >> 32) & 0xffff,
        (bits >> 16) & 0xffff,
        bits & 0xffff
    )
}

#[test]
fn every_float_shape_emits_its_exact_bits() {
    for (situation, value, bits) in [
        ("positive finite", 1.0, 0x3ff0_0000_0000_0000_u64),
        ("positive fractional", 0.25, 0x3fd0_0000_0000_0000),
        ("negative finite", -1.0, 0xbff0_0000_0000_0000),
        ("positive zero", 0.0, 0x0000_0000_0000_0000),
        ("negative zero", -0.0, 0x8000_0000_0000_0000),
        ("positive infinity", f64::INFINITY, 0x7ff0_0000_0000_0000),
        ("negative infinity", f64::NEG_INFINITY, 0xfff0_0000_0000_0000),
        ("NaN payload", f64::from_bits(0x7ff8_0000_0000_0042), 0x7ff8_0000_0000_0042),
    ] {
        let value: f64 = value;
        let mut probe = field("Probe", FieldType::Float64, "0+");
        probe.default = DefaultValue::Float(FloatDefault { bits: value.to_bits() });
        let message = message("0-4", "none", vec![probe]);
        let scope = Scope::of(&message);
        let field = &message.fields[0];
        let grouped = format_bits(bits);

        assert_eq!(
            default_expression(field, &scope),
            format!("f64::from_bits({grouped})"),
            "initializer for {situation}"
        );
        assert_eq!(
            non_default_condition(field, &scope),
            format!("self.probe.to_bits() != {grouped}"),
            "comparison for {situation}"
        );
    }
}

#[test]
fn encoded_value_usage_follows_wire_shape() {
    for (ty, expected) in [
        (FieldType::Int32, false),
        (FieldType::String, true),
        (FieldType::Array(Box::new(FieldType::Int32)), true),
        (struct_type("Nested"), true),
    ] {
        let message = message("0-1", "1+", vec![field("Probe", ty, "0+")]);
        let scope = Scope::of(&message);
        assert_eq!(encoded_value_uses_version(&message.fields[0], &scope), expected);
    }
}

#[test]
fn an_inline_presence_gate_uses_version_even_for_a_fixed_width_value() {
    let message = message("0-1", "none", vec![field("Probe", FieldType::Int32, "1+")]);
    let scope = Scope::of(&message);
    assert!(inline_write_uses_version(&message.fields[0], &scope));
}

struct Gate {
    situation: &'static str,
    valid: &'static str,
    present: &'static str,
    condition: Option<&'static str>,
}

fn gates() -> Vec<Gate> {
    vec![
        Gate {
            situation: "a field present in exactly the message's valid versions",
            valid: "0-4",
            present: "0-4",
            condition: None,
        },
        Gate { situation: "an open-ended field in a bounded message", valid: "0-4", present: "0+", condition: None },
        Gate {
            situation: "a field dropped after an early version",
            valid: "0-4",
            present: "0-2",
            condition: Some("version.value() <= 2"),
        },
        Gate {
            situation: "a field added at a later version and never removed",
            valid: "0-4",
            present: "2+",
            condition: Some("version.value() >= 2"),
        },
        Gate {
            situation: "a field that exists in exactly one version",
            valid: "0-4",
            present: "2",
            condition: Some("version.value() == 2"),
        },
        Gate {
            situation: "a field added and later removed",
            valid: "0-4",
            present: "1-3",
            condition: Some("version.value() >= 1 && version.value() <= 3"),
        },
        Gate {
            situation: "a field removed and reinstated",
            valid: "0-4",
            present: "0-1,3-4",
            condition: Some(
                "(version.value() >= 0 && version.value() <= 1) \
                 || (version.value() >= 3 && version.value() <= 4)",
            ),
        },
    ]
}

#[test]
fn every_presence_declaration_emits_its_exact_version_predicate() {
    for gate in gates() {
        let probe = field("Probe", FieldType::Int32, gate.present);
        let message = message(gate.valid, "none", vec![probe]);
        let scope = Scope::of(&message);
        let rendered = presence_condition(&message.fields[0], &scope);

        assert_eq!(rendered.as_deref(), gate.condition, "presence gate for {}", gate.situation);
    }
}

#[test]
fn a_field_present_in_no_valid_version_renders_an_empty_predicate() {
    let probe = field("Probe", FieldType::Int32, "0-1");
    let message = message("2-4", "none", vec![probe]);
    let scope = Scope::of(&message);

    assert_eq!(
        presence_condition(&message.fields[0], &scope).as_deref(),
        Some(""),
        "the version renderer is expected to have no answer for an empty presence set"
    );

    let refusal = validate_supported(&message)
        .err()
        .unwrap_or_else(|| panic!("a field present in no valid version reached the renderer"))
        .describe();
    assert!(
        refusal.contains("declared in no version this message supports"),
        "the refusal must name the empty presence rather than the interval count: {refusal}"
    );
}

fn refusal(message: &Message, situation: &str) -> String {
    validate_supported(message)
        .err()
        .unwrap_or_else(|| panic!("{situation} was accepted by the backend capability boundary"))
        .describe()
}

fn assert_refused(fields: Vec<Field>, valid: &str, flexible: &str, situation: &str, cause: &str) {
    let message = message(valid, flexible, fields);
    let diagnostic = refusal(&message, situation);

    assert!(diagnostic.contains(cause), "the refusal for {situation} must say `{cause}`: {diagnostic}");
    assert!(
        diagnostic.contains("ProbeRequest."),
        "the refusal for {situation} must name the message and field: {diagnostic}"
    );
}

#[test]
fn the_supported_shape_is_accepted() {
    let message = message(
        "0-4",
        "3+",
        vec![
            field("Probe", FieldType::String, "0+"),
            field("Count", FieldType::Int32, "2+"),
            nullable(field("Note", FieldType::String, "0+")),
        ],
    );

    assert!(validate_supported(&message).is_ok(), "the backend refused a message inside its own documented slice");
}

#[test]
fn a_message_without_one_bounded_valid_interval_is_refused() {
    let mut open = message("0+", "none", vec![field("Probe", FieldType::Int32, "0+")]);
    open.valid_versions = versions("0+");
    assert!(
        validate_supported(&open).err().is_some_and(|error| error.describe().contains("one bounded valid version interval")),
        "an open-ended validVersions was accepted"
    );

    let disjoint = message("0-1,3-4", "none", vec![field("Probe", FieldType::Int32, "0+")]);
    assert!(
        validate_supported(&disjoint)
            .err()
            .is_some_and(|error| error.describe().contains("one bounded valid version interval")),
        "a disjoint validVersions was accepted"
    );
}

#[test]
fn a_message_without_one_bounded_flexible_interval_is_refused() {
    let mut message = message("0-4", "none", vec![field("Probe", FieldType::Int32, "0+")]);
    message.flexible_versions = versions("0-1,3-4");

    let diagnostic = refusal(&message, "a disjoint flexibleVersions");
    assert!(
        diagnostic.contains("one bounded flexible version interval"),
        "the refusal must name the flexible interval: {diagnostic}"
    );
}

#[test]
fn a_field_with_a_disjoint_presence_interval_is_refused() {
    assert_refused(
        vec![field("Probe", FieldType::Int32, "0-1,3-4")],
        "0-4",
        "none",
        "a field present in two disjoint version ranges",
        "one bounded field-presence interval",
    );
}

#[test]
fn a_field_present_in_no_valid_version_is_refused_by_name() {
    assert_refused(
        vec![field("Probe", FieldType::Int32, "0")],
        "1-2",
        "none",
        "a field retired before the message's first supported version",
        "declared in no version this message supports",
    );
}

#[test]
fn a_known_tagged_field_inside_the_flexible_window_is_accepted() {
    let message = message("0-4", "0+", vec![tagged(field("Probe", FieldType::Int32, "0+"), 0)]);

    assert!(validate_supported(&message).is_ok(), "the backend refused a well-formed known tagged field");
}

#[test]
fn a_tagged_field_reaching_outside_the_flexible_window_is_refused() {
    assert_refused(
        vec![tagged(field("Probe", FieldType::Int32, "0+"), 0)],
        "0-4",
        "3+",
        "a tag present before its message became flexible",
        "present in versions the message is not flexible in",
    );
}

#[test]
fn a_field_tagged_in_only_some_of_its_versions_is_refused() {
    let mut partial = tagged(field("Probe", FieldType::Int32, "0+"), 0);
    partial.tagged_versions = versions("2+");
    assert_refused(
        vec![partial],
        "0-4",
        "0+",
        "a field tagged for only part of its life",
        "tagged in only some of the versions it appears in",
    );
}

#[test]
fn tagged_versions_without_a_tag_number_is_refused() {
    let mut numberless = field("Probe", FieldType::Int32, "0+");
    numberless.tagged_versions = versions("0+");
    assert_refused(
        vec![numberless],
        "0-4",
        "0+",
        "a field declaring taggedVersions with no tag",
        "taggedVersions without a tag number",
    );
}

#[test]
fn an_inline_struct_is_accepted_in_either_encoding_regime() {
    for flexible in ["none", "0+"] {
        let mut parent = field("Probe", struct_type("TopicData"), "0+");
        parent.fields = vec![field("Name", FieldType::String, "0+")];
        let message = message("0-4", flexible, vec![parent]);

        assert!(
            validate_supported(&message).is_ok(),
            "the backend refused an inline struct with flexibleVersions {flexible}"
        );
    }
}

#[test]
fn an_inline_nullable_struct_is_accepted_in_either_encoding_regime() {
    for flexible in ["none", "0+"] {
        let mut parent = nullable(field("Probe", struct_type("TopicData"), "0+"));
        parent.fields = vec![field("Name", FieldType::String, "0+")];
        parent.default = DefaultValue::Null;
        let message = message("0-4", flexible, vec![parent]);

        assert!(
            validate_supported(&message).is_ok(),
            "the backend refused an inline nullable struct with flexibleVersions {flexible}"
        );
    }
}

#[test]
fn a_nullable_tagged_struct_field_is_refused() {
    let mut parent = nullable(tagged(field("Probe", struct_type("TopicData"), "0+"), 0));
    parent.fields = vec![field("Name", FieldType::String, "0+")];
    parent.default = DefaultValue::Null;
    assert_refused(
        vec![parent],
        "0-4",
        "0+",
        "a nullable struct field carrying a tag",
        "nullable tagged struct fields are not implemented yet",
    );
}

#[test]
fn partial_version_nullability_is_refused() {
    let mut partial = field("Probe", FieldType::String, "0+");
    partial.nullable_versions = versions("2+");
    partial.default = DefaultValue::Null;
    assert_refused(
        vec![partial],
        "0-4",
        "none",
        "a field nullable in only some of its versions",
        "partial-version nullability is not implemented yet",
    );
}

#[test]
fn a_nullable_field_may_default_to_a_real_value() {
    let mut probe = nullable(field("Probe", FieldType::String, "0+"));
    probe.default = DefaultValue::String("PLAINTEXT".to_owned());
    let message = message("0-4", "none", vec![probe]);

    assert!(validate_supported(&message).is_ok(), "the backend refused a nullable field defaulting to a literal");
}

#[test]
fn arrays_are_accepted_gated_compact_and_nullable_alike() {
    let array = || field("Probe", FieldType::Array(Box::new(FieldType::String)), "0+");

    let mut gated = array();
    gated.versions = versions("2+");
    let mut null_default = nullable(array());
    null_default.default = DefaultValue::Null;
    for (fields, situation) in [
        (vec![gated], "a string array added at a later version"),
        (vec![array()], "a string array in a flexible message"),
        (vec![null_default], "a nullable string array"),
    ] {
        let message = message("0-4", "0+", fields);
        assert!(validate_supported(&message).is_ok(), "the backend refused {situation}");
    }
}

#[test]
fn an_array_of_an_unsupported_element_is_refused_by_name() {
    let nested = FieldType::Array(Box::new(FieldType::Array(Box::new(FieldType::Int32))));
    let message = message("0-4", "none", vec![field("Probe", nested, "0+")]);
    let diagnostic = refusal(&message, "an array of arrays");

    assert!(diagnostic.contains("outside the initial backend slice"), "the refusal must name the slice: {diagnostic}");
}

#[test]
fn each_field_shape_declares_its_rust_type() {
    for (ty, nullable_field, declared) in [
        (FieldType::String, false, "StrBytes"),
        (FieldType::String, true, "::core::option::Option<StrBytes>"),
        (FieldType::Bool, false, "bool"),
        (FieldType::Int8, false, "i8"),
        (FieldType::Int16, false, "i16"),
        (FieldType::Int32, false, "i32"),
        (FieldType::Int64, false, "i64"),
        (FieldType::Uuid, false, "Uuid"),
        (FieldType::Array(Box::new(FieldType::Int32)), false, "::std::vec::Vec<i32>"),
        (struct_type("TopicData"), false, "ProbeRequestTopicData"),
    ] {
        let described = ty.describe();
        let mut probe = field("Probe", ty, "0+");
        if nullable_field {
            probe = nullable(probe);
        }
        let message = message(VALID, "none", vec![probe]);
        let scope = Scope::of(&message);
        assert_eq!(rust_type(&message.fields[0], &scope), declared, "declared type for {described}");
    }
}

#[test]
fn each_default_renders_its_initializer_comparison_and_derivability() {
    for (situation, ty, default, initializer, non_default, derivable) in [
        ("an int16 defaulting to zero", FieldType::Int16, DefaultValue::Integer(0), "0", "self.probe != 0", true),
        ("an int32 defaulting to -1", FieldType::Int32, DefaultValue::Integer(-1), "-1", "self.probe != -1", false),
        (
            "a string defaulting to empty",
            FieldType::String,
            DefaultValue::String(String::new()),
            "StrBytes::default()",
            "!self.probe.is_empty()",
            true,
        ),
        (
            "a string defaulting to a literal",
            FieldType::String,
            DefaultValue::String("PLAINTEXT".to_owned()),
            "StrBytes::from(\"PLAINTEXT\")",
            "self.probe.as_str() != \"PLAINTEXT\"",
            false,
        ),
        ("a bool defaulting to false", FieldType::Bool, DefaultValue::Bool(false), "false", "self.probe", true),
        ("a bool defaulting to true", FieldType::Bool, DefaultValue::Bool(true), "true", "!self.probe", false),
        ("a zero uuid", FieldType::Uuid, DefaultValue::Uuid([0; 16]), "Uuid::ZERO", "self.probe != Uuid::ZERO", true),
        (
            "a struct at its own defaults",
            struct_type("TopicData"),
            DefaultValue::StructDefaults,
            "ProbeRequestTopicData::default()",
            "!ProtocolEq::is_protocol_default(&self.probe)",
            true,
        ),
    ] {
        let mut probe = field("Probe", ty, "0+");
        probe.default = default;
        let message = message(VALID, "none", vec![probe]);
        let scope = Scope::of(&message);
        let probe = &message.fields[0];
        assert_eq!(default_expression(probe, &scope), initializer, "initializer for {situation}");
        assert_eq!(non_default_condition(probe, &scope), non_default, "comparison for {situation}");
        assert_eq!(uses_rust_default(probe, &scope), derivable, "derive(Default) suitability for {situation}");
    }
}
