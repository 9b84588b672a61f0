use kafka_wire_codegen::api::tagged_proof::RenderedKnownTags;
use kafka_wire_codegen::field::codec::{read_expression, write_statement};
use kafka_wire_codegen::schema::{
    DefaultValue, Field, FieldName, FieldType, Message, MessageKind, MessageName, Scope, StructRef, StructTable,
};
use kafka_wire_codegen::text::RustText;
use kafka_wire_codegen::versions::VersionSet;

const OWNER: &str = "ProbeRequest";
const VALID: &str = "0-4";

fn versions(spec: &str) -> VersionSet {
    VersionSet::parse(spec).unwrap_or_else(|| panic!("parse version set `{spec}`"))
}

fn probe_message(valid: &str, flexible: &str, fields: Vec<Field>) -> Message {
    Message {
        api_key: Some(0),
        kind: MessageKind::Request,
        name: MessageName::new(OWNER),
        valid_versions: versions(valid),
        flexible_versions: versions(flexible),
        latest_version_unstable: false,
        common_structs: Vec::new(),
        fields,
        structs: StructTable { declarations: Vec::new() },
    }
}

fn struct_type(declared: &str) -> FieldType {
    FieldType::Struct(StructRef::qualify(&MessageName::new(OWNER), declared))
}

fn probe_field(name: &str, ty: FieldType, present: &str) -> Field {
    Field {
        name: FieldName::new(name),
        ty,
        versions: versions(present),
        nullable_versions: VersionSet::none(),
        tagged_versions: VersionSet::none(),
        tag: None,
        default: DefaultValue::Empty,
        ignorable: false,
        flexible_versions: None,
        about: "Probe field.".to_owned(),
        fields: Vec::new(),
    }
}

fn nullable(mut field: Field) -> Field {
    field.nullable_versions = field.versions.duplicate();
    field.default = DefaultValue::Null;
    field
}

struct Cell {
    situation: &'static str,
    ty: FieldType,
    nullable: bool,
    flexible: &'static str,
    read: &'static str,
    write: &'static str,
}

fn table() -> Vec<Cell> {
    vec![
        Cell {
            situation: "a non-null string in a message with no flexible version",
            ty: FieldType::String,
            nullable: false,
            flexible: "none",
            read: "decoder.read_string()?",
            write: "encoder.write_string(&self.probe)?;",
        },
        Cell {
            situation: "a non-null string present only in flexible versions",
            ty: FieldType::String,
            nullable: false,
            flexible: "0+",
            read: "decoder.read_compact_string()?",
            write: "encoder.write_compact_string(&self.probe)?;",
        },
        Cell {
            situation: "a non-null string straddling the flexible boundary",
            ty: FieldType::String,
            nullable: false,
            flexible: "3+",
            read: "if Self::is_flexible(version) { decoder.read_compact_string()? } \
                   else { decoder.read_string()? }",
            write: "if Self::is_flexible(version) { encoder.write_compact_string(&self.probe)?; } \
                    else { encoder.write_string(&self.probe)?; }",
        },
        Cell {
            situation: "a nullable string in a message with no flexible version",
            ty: FieldType::String,
            nullable: true,
            flexible: "none",
            read: "decoder.read_nullable_string()?",
            write: "encoder.write_nullable_string(self.probe.as_ref())?;",
        },
        Cell {
            situation: "a nullable string present only in flexible versions",
            ty: FieldType::String,
            nullable: true,
            flexible: "0+",
            read: "decoder.read_compact_nullable_string()?",
            write: "encoder.write_compact_nullable_string(self.probe.as_ref())?;",
        },
        Cell {
            situation: "a nullable string straddling the flexible boundary",
            ty: FieldType::String,
            nullable: true,
            flexible: "3+",
            read: "if Self::is_flexible(version) { decoder.read_compact_nullable_string()? } \
                   else { decoder.read_nullable_string()? }",
            write: "if Self::is_flexible(version) { \
                    encoder.write_compact_nullable_string(self.probe.as_ref())?; } \
                    else { encoder.write_nullable_string(self.probe.as_ref())?; }",
        },
        Cell {
            situation: "non-null bytes in a message with no flexible version",
            ty: FieldType::Bytes,
            nullable: false,
            flexible: "none",
            read: "decoder.read_bytes()?",
            write: "encoder.write_bytes(&self.probe)?;",
        },
        Cell {
            situation: "nullable bytes present only in flexible versions",
            ty: FieldType::Bytes,
            nullable: true,
            flexible: "0+",
            read: "decoder.read_compact_nullable_bytes()?",
            write: "encoder.write_compact_nullable_bytes(self.probe.as_deref())?;",
        },
    ]
}

fn fixed_width_cells() -> Vec<Cell> {
    vec![
        Cell {
            situation: "an int16 in a message with no flexible version",
            ty: FieldType::Int16,
            nullable: false,
            flexible: "none",
            read: "decoder.read_i16()?",
            write: "encoder.write_i16(self.probe)?;",
        },
        Cell {
            situation: "an int16 present only in flexible versions",
            ty: FieldType::Int16,
            nullable: false,
            flexible: "0+",
            read: "decoder.read_i16()?",
            write: "encoder.write_i16(self.probe)?;",
        },
        Cell {
            situation: "an int32 in a message with no flexible version",
            ty: FieldType::Int32,
            nullable: false,
            flexible: "none",
            read: "decoder.read_i32()?",
            write: "encoder.write_i32(self.probe)?;",
        },
        Cell {
            situation: "an int32 present only in flexible versions",
            ty: FieldType::Int32,
            nullable: false,
            flexible: "0+",
            read: "decoder.read_i32()?",
            write: "encoder.write_i32(self.probe)?;",
        },
        Cell {
            situation: "a bool in a message with no flexible version",
            ty: FieldType::Bool,
            nullable: false,
            flexible: "none",
            read: "decoder.read_bool()?",
            write: "encoder.write_bool(self.probe)?;",
        },
        Cell {
            situation: "a bool present only in flexible versions",
            ty: FieldType::Bool,
            nullable: false,
            flexible: "0+",
            read: "decoder.read_bool()?",
            write: "encoder.write_bool(self.probe)?;",
        },
        Cell {
            situation: "an int8 in a message with no flexible version",
            ty: FieldType::Int8,
            nullable: false,
            flexible: "none",
            read: "decoder.read_i8()?",
            write: "encoder.write_i8(self.probe)?;",
        },
        Cell {
            situation: "an int64 in a message with no flexible version",
            ty: FieldType::Int64,
            nullable: false,
            flexible: "none",
            read: "decoder.read_i64()?",
            write: "encoder.write_i64(self.probe)?;",
        },
        Cell {
            situation: "an int64 present only in flexible versions",
            ty: FieldType::Int64,
            nullable: false,
            flexible: "0+",
            read: "decoder.read_i64()?",
            write: "encoder.write_i64(self.probe)?;",
        },
        Cell {
            situation: "a uuid in a message with no flexible version",
            ty: FieldType::Uuid,
            nullable: false,
            flexible: "none",
            read: "decoder.read_uuid()?",
            write: "encoder.write_uuid(self.probe)?;",
        },
        Cell {
            situation: "a struct field, which delegates to the struct's own codec",
            ty: struct_type("TopicData"),
            nullable: false,
            flexible: "none",
            read: "ProbeRequestTopicData::decode(decoder, version)?",
            write: "self.probe.encode(encoder, version)?;",
        },
    ]
}

fn emit(cell: Cell) -> (String, String) {
    let mut probe = probe_field("Probe", cell.ty, "0+");
    if cell.nullable {
        probe = nullable(probe);
    }
    let message = probe_message(VALID, cell.flexible, vec![probe]);
    let scope = Scope::of(&message);
    let probe = &message.fields[0];
    let read = read_expression(probe, &scope)
        .unwrap_or_else(|error| panic!("{}: read was rejected: {}", cell.situation, error.describe()));
    let write = write_statement(probe, &scope)
        .unwrap_or_else(|error| panic!("{}: write was rejected: {}", cell.situation, error.describe()));
    (read, write)
}

#[test]
fn every_supported_field_shape_emits_its_exact_codec_call() {
    for cell in table().into_iter().chain(fixed_width_cells()) {
        let situation = cell.situation;
        let expected_read = cell.read;
        let expected_write = cell.write;
        let (read, write) = emit(cell);
        assert_eq!(read, expected_read, "read expression for {}", situation);
        assert_eq!(write, expected_write, "write statement for {}", situation);
    }
}

#[test]
fn rendered_tag_sets_match_only_the_exact_ir_sequence() {
    let mut rendered = RenderedKnownTags::default();
    rendered.record(0);
    rendered.record(2);

    assert!(rendered.matches(&[0, 2]));
    assert!(!rendered.matches(&[0]));
    assert!(!rendered.matches(&[0, 1, 2]));
    assert!(!rendered.matches(&[2, 0]));
}

#[test]
fn every_physical_prose_line_keeps_the_doc_prefix() {
    let mut rust = RustText::default();
    rust.doc_line("safe\r\n#[allow(unsafe_code)]\nfn escaped() {}\u{2028}pub mod escaped\u{2029}");

    assert_eq!(
        rust.finish(),
        "/// safe\n/// #[allow(unsafe_code)]\n/// fn escaped() {}\n/// pub mod escaped\n/// \n"
    );
}
