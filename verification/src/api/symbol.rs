//! Closed vocabulary for every external symbol emitted into message Rust.
//!
//! This file owns origin and collision-proof spelling. It knows no schema
//! traversal or import-block layout.

use vstd::prelude::*;

verus! {

/// One compiler-owned symbol emitted into a generated message module.
#[derive(Clone, Copy, Debug, PartialEq, Eq, Structural)]
pub enum ExternalSymbol {
    ApiDescriptor,
    ApiKey,
    ApiVersion,
    Bytes,
    BytesMut,
    DecodeError,
    Decoder,
    EncodeError,
    EncodeTarget,
    Encoder,
    KafkaDecode,
    KafkaEncode,
    KnownTags,
    RetainedFootprint,
    RetainedSize,
    StrBytes,
    TagOutcome,
    TaggedFields,
    TaggedFieldsError,
    Uuid,
    VersionRange,
    EncodeIntoWith,
    EncodedLenWith,
    KafkaMessage,
    MessageDescriptor,
    MessageDirection,
    KafkaRequest,
    KafkaResponse,
    ProtocolEq,
    RequestResponsePair,
    Result,
    Option,
    Vec,
    Default,
    ResultOk,
    ResultErr,
    OptionSome,
    OptionNone,
}

/// The name a symbol is bound to where it is imported.
pub open spec fn symbol_name(s: ExternalSymbol) -> Seq<char> {
    match s {
        ExternalSymbol::ApiDescriptor => "ApiDescriptor"@,
        ExternalSymbol::ApiKey => "ApiKey"@,
        ExternalSymbol::ApiVersion => "ApiVersion"@,
        ExternalSymbol::Bytes => "Bytes"@,
        ExternalSymbol::BytesMut => "BytesMut"@,
        ExternalSymbol::DecodeError => "DecodeError"@,
        ExternalSymbol::Decoder => "Decoder"@,
        ExternalSymbol::EncodeError => "EncodeError"@,
        ExternalSymbol::EncodeTarget => "EncodeTarget"@,
        ExternalSymbol::Encoder => "Encoder"@,
        ExternalSymbol::KafkaDecode => "KafkaDecode"@,
        ExternalSymbol::KafkaEncode => "KafkaEncode"@,
        ExternalSymbol::KnownTags => "KnownTags"@,
        ExternalSymbol::RetainedFootprint => "RetainedFootprint"@,
        ExternalSymbol::RetainedSize => "RetainedSize"@,
        ExternalSymbol::StrBytes => "StrBytes"@,
        ExternalSymbol::TagOutcome => "TagOutcome"@,
        ExternalSymbol::TaggedFields => "TaggedFields"@,
        ExternalSymbol::TaggedFieldsError => "TaggedFieldsError"@,
        ExternalSymbol::Uuid => "Uuid"@,
        ExternalSymbol::VersionRange => "VersionRange"@,
        ExternalSymbol::EncodeIntoWith => "encode_into_with"@,
        ExternalSymbol::EncodedLenWith => "encoded_len_with"@,
        ExternalSymbol::KafkaMessage => "KafkaMessage"@,
        ExternalSymbol::MessageDescriptor => "MessageDescriptor"@,
        ExternalSymbol::MessageDirection => "MessageDirection"@,
        ExternalSymbol::KafkaRequest => "KafkaRequest"@,
        ExternalSymbol::KafkaResponse => "KafkaResponse"@,
        ExternalSymbol::ProtocolEq => "ProtocolEq"@,
        ExternalSymbol::RequestResponsePair => "RequestResponsePair"@,
        ExternalSymbol::Result => "Result"@,
        ExternalSymbol::Option => "Option"@,
        ExternalSymbol::Vec => "Vec"@,
        ExternalSymbol::Default => "Default"@,
        ExternalSymbol::ResultOk => "Ok"@,
        ExternalSymbol::ResultErr => "Err"@,
        ExternalSymbol::OptionSome => "Some"@,
        ExternalSymbol::OptionNone => "None"@,
    }
}

/// The crate a symbol is imported from, or `None` for prelude names.
pub open spec fn symbol_origin(s: ExternalSymbol) -> Option<Seq<char>> {
    match s {
        ExternalSymbol::ApiDescriptor => Some("crate"@),
        ExternalSymbol::ApiKey => Some("kafka_wire_core"@),
        ExternalSymbol::ApiVersion => Some("kafka_wire_core"@),
        ExternalSymbol::Bytes => Some("kafka_wire_core"@),
        ExternalSymbol::BytesMut => Some("kafka_wire_core"@),
        ExternalSymbol::DecodeError => Some("kafka_wire_core"@),
        ExternalSymbol::Decoder => Some("kafka_wire_core"@),
        ExternalSymbol::EncodeError => Some("kafka_wire_core"@),
        ExternalSymbol::EncodeTarget => Some("kafka_wire_core"@),
        ExternalSymbol::Encoder => Some("kafka_wire_core"@),
        ExternalSymbol::KafkaDecode => Some("kafka_wire_core"@),
        ExternalSymbol::KafkaEncode => Some("kafka_wire_core"@),
        ExternalSymbol::KnownTags => Some("kafka_wire_core"@),
        ExternalSymbol::RetainedFootprint => Some("kafka_wire_core"@),
        ExternalSymbol::RetainedSize => Some("kafka_wire_core"@),
        ExternalSymbol::StrBytes => Some("kafka_wire_core"@),
        ExternalSymbol::TagOutcome => Some("kafka_wire_core"@),
        ExternalSymbol::TaggedFields => Some("kafka_wire_core"@),
        ExternalSymbol::TaggedFieldsError => Some("kafka_wire_core"@),
        ExternalSymbol::Uuid => Some("kafka_wire_core"@),
        ExternalSymbol::VersionRange => Some("kafka_wire_core"@),
        ExternalSymbol::EncodeIntoWith => Some("kafka_wire_core"@),
        ExternalSymbol::EncodedLenWith => Some("kafka_wire_core"@),
        ExternalSymbol::KafkaMessage => Some("crate"@),
        ExternalSymbol::MessageDescriptor => Some("crate"@),
        ExternalSymbol::MessageDirection => Some("crate"@),
        ExternalSymbol::KafkaRequest => Some("crate"@),
        ExternalSymbol::KafkaResponse => Some("crate"@),
        ExternalSymbol::ProtocolEq => Some("crate"@),
        ExternalSymbol::RequestResponsePair => Some("crate"@),
        _ => None,
    }
}

/// The full path of a prelude name, which is never imported.
pub open spec fn symbol_absolute(s: ExternalSymbol) -> Option<Seq<char>> {
    match s {
        ExternalSymbol::Result => Some("::core::result::Result"@),
        ExternalSymbol::Option => Some("::core::option::Option"@),
        ExternalSymbol::Vec => Some("::std::vec::Vec"@),
        ExternalSymbol::Default => Some("::core::default::Default"@),
        ExternalSymbol::ResultOk => Some("::core::result::Result::Ok"@),
        ExternalSymbol::ResultErr => Some("::core::result::Result::Err"@),
        ExternalSymbol::OptionSome => Some("::core::option::Option::Some"@),
        ExternalSymbol::OptionNone => Some("::core::option::Option::None"@),
        _ => None,
    }
}

/// Whether a symbol may be introduced through a generated `use` declaration.
pub open spec fn is_importable(s: ExternalSymbol) -> bool {
    symbol_origin(s) is Some
}

impl ExternalSymbol {
    pub fn name(self) -> (r: &'static str)
        ensures
            r@ == symbol_name(self),
    {
        match self {
            ExternalSymbol::ApiDescriptor => "ApiDescriptor",
            ExternalSymbol::ApiKey => "ApiKey",
            ExternalSymbol::ApiVersion => "ApiVersion",
            ExternalSymbol::Bytes => "Bytes",
            ExternalSymbol::BytesMut => "BytesMut",
            ExternalSymbol::DecodeError => "DecodeError",
            ExternalSymbol::Decoder => "Decoder",
            ExternalSymbol::EncodeError => "EncodeError",
            ExternalSymbol::EncodeTarget => "EncodeTarget",
            ExternalSymbol::Encoder => "Encoder",
            ExternalSymbol::KafkaDecode => "KafkaDecode",
            ExternalSymbol::KafkaEncode => "KafkaEncode",
            ExternalSymbol::KnownTags => "KnownTags",
            ExternalSymbol::RetainedFootprint => "RetainedFootprint",
            ExternalSymbol::RetainedSize => "RetainedSize",
            ExternalSymbol::StrBytes => "StrBytes",
            ExternalSymbol::TagOutcome => "TagOutcome",
            ExternalSymbol::TaggedFields => "TaggedFields",
            ExternalSymbol::TaggedFieldsError => "TaggedFieldsError",
            ExternalSymbol::Uuid => "Uuid",
            ExternalSymbol::VersionRange => "VersionRange",
            ExternalSymbol::EncodeIntoWith => "encode_into_with",
            ExternalSymbol::EncodedLenWith => "encoded_len_with",
            ExternalSymbol::KafkaMessage => "KafkaMessage",
            ExternalSymbol::MessageDescriptor => "MessageDescriptor",
            ExternalSymbol::MessageDirection => "MessageDirection",
            ExternalSymbol::KafkaRequest => "KafkaRequest",
            ExternalSymbol::KafkaResponse => "KafkaResponse",
            ExternalSymbol::ProtocolEq => "ProtocolEq",
            ExternalSymbol::RequestResponsePair => "RequestResponsePair",
            ExternalSymbol::Result => "Result",
            ExternalSymbol::Option => "Option",
            ExternalSymbol::Vec => "Vec",
            ExternalSymbol::Default => "Default",
            ExternalSymbol::ResultOk => "Ok",
            ExternalSymbol::ResultErr => "Err",
            ExternalSymbol::OptionSome => "Some",
            ExternalSymbol::OptionNone => "None",
        }
    }

    pub fn origin(self) -> (r: Option<&'static str>)
        ensures
            match symbol_origin(self) {
                Some(o) => r matches Some(x) && x@ == o,
                None => r is None,
            },
    {
        match self {
            ExternalSymbol::ApiDescriptor => Some("crate"),
            ExternalSymbol::ApiKey => Some("kafka_wire_core"),
            ExternalSymbol::ApiVersion => Some("kafka_wire_core"),
            ExternalSymbol::Bytes => Some("kafka_wire_core"),
            ExternalSymbol::BytesMut => Some("kafka_wire_core"),
            ExternalSymbol::DecodeError => Some("kafka_wire_core"),
            ExternalSymbol::Decoder => Some("kafka_wire_core"),
            ExternalSymbol::EncodeError => Some("kafka_wire_core"),
            ExternalSymbol::EncodeTarget => Some("kafka_wire_core"),
            ExternalSymbol::Encoder => Some("kafka_wire_core"),
            ExternalSymbol::KafkaDecode => Some("kafka_wire_core"),
            ExternalSymbol::KafkaEncode => Some("kafka_wire_core"),
            ExternalSymbol::KnownTags => Some("kafka_wire_core"),
            ExternalSymbol::RetainedFootprint => Some("kafka_wire_core"),
            ExternalSymbol::RetainedSize => Some("kafka_wire_core"),
            ExternalSymbol::StrBytes => Some("kafka_wire_core"),
            ExternalSymbol::TagOutcome => Some("kafka_wire_core"),
            ExternalSymbol::TaggedFields => Some("kafka_wire_core"),
            ExternalSymbol::TaggedFieldsError => Some("kafka_wire_core"),
            ExternalSymbol::Uuid => Some("kafka_wire_core"),
            ExternalSymbol::VersionRange => Some("kafka_wire_core"),
            ExternalSymbol::EncodeIntoWith => Some("kafka_wire_core"),
            ExternalSymbol::EncodedLenWith => Some("kafka_wire_core"),
            ExternalSymbol::KafkaMessage => Some("crate"),
            ExternalSymbol::MessageDescriptor => Some("crate"),
            ExternalSymbol::MessageDirection => Some("crate"),
            ExternalSymbol::KafkaRequest => Some("crate"),
            ExternalSymbol::KafkaResponse => Some("crate"),
            ExternalSymbol::ProtocolEq => Some("crate"),
            ExternalSymbol::RequestResponsePair => Some("crate"),
            _ => None,
        }
    }

    pub fn absolute(self) -> (r: Option<&'static str>)
        ensures
            match symbol_absolute(self) {
                Some(p) => r matches Some(x) && x@ == p,
                None => r is None,
            },
    {
        match self {
            ExternalSymbol::Result => Some("::core::result::Result"),
            ExternalSymbol::Option => Some("::core::option::Option"),
            ExternalSymbol::Vec => Some("::std::vec::Vec"),
            ExternalSymbol::Default => Some("::core::default::Default"),
            ExternalSymbol::ResultOk => Some("::core::result::Result::Ok"),
            ExternalSymbol::ResultErr => Some("::core::result::Result::Err"),
            ExternalSymbol::OptionSome => Some("::core::option::Option::Some"),
            ExternalSymbol::OptionNone => Some("::core::option::Option::None"),
            _ => None,
        }
    }
}

} // verus!
