//! The normalized schema a renderer reads: messages, fields, types, defaults,
//! and the names Rust spells them with.
//!
//! Every value here is plain data produced by the schema front end. Renderers
//! read it and never change it; the few operations below are the questions
//! every renderer asks of it.

use vstd::prelude::*;

use crate::naming::{field_ident, field_identifier, screaming, screaming_snake_case, snake, snake_case};
use crate::strings::{cat2, owned};
use crate::versions::VersionSet;

verus! {

/// Which side of an exchange, if any, a schema describes.
#[derive(Clone, Copy, Debug, PartialEq, Eq, Structural)]
pub enum MessageKind {
    Request,
    Response,
    Header,
    Data,
}

/// A message's protocol name, such as `ProduceRequest`.
#[derive(Debug, PartialEq, Eq)]
pub struct MessageName {
    pub text: String,
}

impl MessageName {
    pub fn new(text: &str) -> (r: MessageName)
        ensures
            r.text@ == text@,
    {
        MessageName { text: owned(text) }
    }

    /// The name as upstream spells it.
    pub fn protocol(&self) -> (r: &str)
        ensures
            r@ == self.text@,
    {
        self.text.as_str()
    }

    /// The generated type's name, which keeps upstream's spelling.
    pub fn rust_type(&self) -> (r: &str)
        ensures
            r@ == self.text@,
    {
        self.text.as_str()
    }

    /// The generated module holding the message: `produce_request`.
    pub fn rust_module(&self) -> (r: String)
        ensures
            r@ == snake(self.text@),
    {
        snake_case(self.text.as_str())
    }

    /// The stem of the descriptor constants: `PRODUCE_REQUEST`.
    pub fn descriptor_symbol(&self) -> (r: String)
        ensures
            r@ == screaming(self.text@),
    {
        screaming_snake_case(self.text.as_str())
    }

    /// The API the message belongs to: the name without `Request` or `Response`.
    pub fn api_stem(&self) -> (r: String)
        ensures
            r@ == api_stem_of(self.text@),
    {
        let n = self.text.as_str().unicode_len();
        proof {
            reveal_strlit("Request");
            reveal_strlit("Response");
        }
        if ends_with(self.text.as_str(), "Request") {
            owned(self.text.as_str().substring_char(0, n - 7))
        } else if ends_with(self.text.as_str(), "Response") {
            owned(self.text.as_str().substring_char(0, n - 8))
        } else {
            owned(self.text.as_str())
        }
    }
}

/// Whether `s` ends with `suffix`.
pub open spec fn has_suffix(s: Seq<char>, suffix: Seq<char>) -> bool {
    suffix.len() <= s.len() && s.skip(s.len() - suffix.len()) == suffix
}

/// A message name without its `Request` or `Response` suffix.
pub open spec fn api_stem_of(s: Seq<char>) -> Seq<char> {
    if has_suffix(s, "Request"@) {
        s.take(s.len() - 7)
    } else if has_suffix(s, "Response"@) {
        s.take(s.len() - 8)
    } else {
        s
    }
}

/// Whether `s` ends with `suffix`.
pub fn ends_with(s: &str, suffix: &str) -> (r: bool)
    ensures
        r == has_suffix(s@, suffix@),
{
    let n = s.unicode_len();
    let m = suffix.unicode_len();
    if m > n {
        return false;
    }
    let mut i: usize = 0;
    while i < m
        invariant
            n == s@.len(),
            m == suffix@.len(),
            m <= n,
            i <= m,
            forall|k: int| 0 <= k < i ==> s@[n - m + k] == suffix@[k],
        decreases m - i,
    {
        if s.get_char(n - m + i) != suffix.get_char(i) {
            assert(s@.skip(n - m)[i as int] != suffix@[i as int]);
            return false;
        }
        i = i + 1;
    }
    assert(s@.skip(n - m) =~= suffix@);
    true
}

/// A field's protocol name, such as `VersionValue`.
#[derive(Debug, PartialEq, Eq)]
pub struct FieldName {
    pub text: String,
}

impl FieldName {
    pub fn new(text: &str) -> (r: FieldName)
        ensures
            r.text@ == text@,
    {
        FieldName { text: owned(text) }
    }

    /// The name as upstream spells it.
    pub fn protocol(&self) -> (r: &str)
        ensures
            r@ == self.text@,
    {
        self.text.as_str()
    }

    /// The generated struct member: `version_value`.
    pub fn rust_field(&self) -> (r: String)
        ensures
            r@ == field_ident(self.text@),
    {
        field_identifier(self.text.as_str())
    }
}

/// A reference to a struct one message declares.
#[derive(Debug, PartialEq, Eq)]
pub struct StructRef {
    /// The declaring message's protocol name.
    pub owner: String,
    /// The struct's own name as upstream spells it.
    pub declared: String,
    /// The Rust type name lowering resolved for the struct.
    pub spelling: String,
}

impl StructRef {
    /// The struct `declared` of `owner`, spelled with the owner's name in
    /// front, so the name is unique across every module.
    pub fn qualify(owner: &MessageName, declared: &str) -> (r: StructRef)
        ensures
            r.owner@ == owner.text@,
            r.declared@ == declared@,
            r.spelling@ == owner.text@ + declared@,
    {
        StructRef { owner: owner.text.clone(), declared: owner_free(declared), spelling: cat2(owner.text.as_str(), declared) }
    }

    /// The struct `declared` of `owner`, spelled as upstream declares it: the
    /// message's module is the scope that name is unique in.
    pub fn scoped(owner: &MessageName, declared: &str) -> (r: StructRef)
        ensures
            r.owner@ == owner.text@,
            r.declared@ == declared@,
            r.spelling@ == declared@,
    {
        StructRef { owner: owner.text.clone(), declared: owner_free(declared), spelling: owner_free(declared) }
    }

    /// The struct's name as upstream spells it.
    pub fn declared(&self) -> (r: &str)
        ensures
            r@ == self.declared@,
    {
        self.declared.as_str()
    }

    /// The generated type name, as lowering resolved it.
    pub fn rust_type(&self) -> (r: String)
        ensures
            r@ == self.spelling@,
    {
        owner_free(self.spelling.as_str())
    }
}

fn owner_free(s: &str) -> (r: String)
    ensures
        r@ == s@,
{
    owned(s)
}

/// One IEEE-754 default, held as its exact bit pattern.
#[derive(Clone, Copy, Debug, PartialEq, Eq, Structural)]
pub struct FloatDefault {
    pub bits: u64,
}

/// The wire type of a field.
#[derive(Debug, PartialEq, Eq)]
pub enum FieldType {
    String,
    Bool,
    Int8,
    Int16,
    Uint16,
    Uint32,
    Int32,
    Int64,
    Uuid,
    Float64,
    Bytes,
    Records,
    Struct(StructRef),
    Array(Box<FieldType>),
}

impl FieldType {
    /// The struct this type names, looking through an array element.
    pub fn struct_reference(&self) -> (r: Option<&StructRef>)
        ensures
            r is Some == names_struct(*self),
        decreases self,
    {
        match self {
            FieldType::Struct(reference) => Some(reference),
            FieldType::Array(element) => element.struct_reference(),
            _ => None,
        }
    }
}

/// How `{:?}` shows a type in a diagnostic.
pub open spec fn type_debug(ty: FieldType) -> Seq<char>
    decreases ty,
{
    match ty {
        FieldType::String => "String"@,
        FieldType::Bool => "Bool"@,
        FieldType::Int8 => "Int8"@,
        FieldType::Int16 => "Int16"@,
        FieldType::Uint16 => "Uint16"@,
        FieldType::Uint32 => "Uint32"@,
        FieldType::Int32 => "Int32"@,
        FieldType::Int64 => "Int64"@,
        FieldType::Uuid => "Uuid"@,
        FieldType::Float64 => "Float64"@,
        FieldType::Bytes => "Bytes"@,
        FieldType::Records => "Records"@,
        FieldType::Struct(r) => "Struct("@ + r.spelling@ + ")"@,
        FieldType::Array(element) => "Array("@ + type_debug(*element) + ")"@,
    }
}

impl FieldType {
    /// The type as a diagnostic names it.
    pub fn describe(&self) -> (r: String)
        ensures
            r@ == type_debug(*self),
        decreases self,
    {
        match self {
            FieldType::String => owned("String"),
            FieldType::Bool => owned("Bool"),
            FieldType::Int8 => owned("Int8"),
            FieldType::Int16 => owned("Int16"),
            FieldType::Uint16 => owned("Uint16"),
            FieldType::Uint32 => owned("Uint32"),
            FieldType::Int32 => owned("Int32"),
            FieldType::Int64 => owned("Int64"),
            FieldType::Uuid => owned("Uuid"),
            FieldType::Float64 => owned("Float64"),
            FieldType::Bytes => owned("Bytes"),
            FieldType::Records => owned("Records"),
            FieldType::Struct(r) => {
                let spelled = r.rust_type();
                crate::strings::cat3("Struct(", spelled.as_str(), ")")
            },
            FieldType::Array(element) => {
                let inner = element.describe();
                crate::strings::cat3("Array(", inner.as_str(), ")")
            },
        }
    }
}

/// Whether a type is a struct or an array, at any depth, of one.
pub open spec fn names_struct(ty: FieldType) -> bool
    decreases ty,
{
    match ty {
        FieldType::Struct(_) => true,
        FieldType::Array(element) => names_struct(*element),
        _ => false,
    }
}

/// A field's protocol default.
#[derive(Debug, PartialEq, Eq)]
pub enum DefaultValue {
    /// The field defaults to null.
    Null,
    Bool(bool),
    Integer(i64),
    String(String),
    Uuid([u8; 16]),
    /// A struct absent from a version is every member at its own default.
    StructDefaults,
    /// The type's empty value: an empty array, string or blob.
    Empty,
    Float(FloatDefault),
}

/// One field of a message or struct.
#[derive(Debug, PartialEq, Eq)]
pub struct Field {
    pub name: FieldName,
    pub ty: FieldType,
    /// Versions the field is present in.
    pub versions: VersionSet,
    /// Versions in which it may be null.
    pub nullable_versions: VersionSet,
    /// Versions in which it travels in the tagged-field section.
    pub tagged_versions: VersionSet,
    pub tag: Option<u32>,
    pub default: DefaultValue,
    /// Whether a writer may drop it silently where it does not exist.
    pub ignorable: bool,
    /// An encoding the field pins for itself, overriding its message's.
    pub flexible_versions: Option<VersionSet>,
    pub about: String,
    /// The members of the struct this field declares inline.
    pub fields: Vec<Field>,
}

/// A struct shared by name across one message's fields.
#[derive(Debug, PartialEq, Eq)]
pub struct CommonStruct {
    pub name: StructRef,
    pub versions: VersionSet,
    pub fields: Vec<Field>,
}

/// Where a declared struct's body lives.
#[derive(Clone, Copy, Debug, PartialEq, Eq, Structural)]
pub enum StructOrigin {
    Common,
    Inline,
}

/// One struct a message declares, with the versions it exists in.
#[derive(Debug, PartialEq, Eq)]
pub struct StructDeclaration {
    pub name: StructRef,
    pub origin: StructOrigin,
    pub versions: VersionSet,
}

/// Every struct a message declares, in protocol declaration order.
#[derive(Debug, PartialEq, Eq)]
pub struct StructTable {
    pub declarations: Vec<StructDeclaration>,
}

/// One normalized message schema.
#[derive(Debug, PartialEq, Eq)]
pub struct Message {
    pub api_key: Option<i16>,
    pub kind: MessageKind,
    pub name: MessageName,
    pub valid_versions: VersionSet,
    pub flexible_versions: VersionSet,
    pub latest_version_unstable: bool,
    pub common_structs: Vec<CommonStruct>,
    pub fields: Vec<Field>,
    pub structs: StructTable,
}

impl Message {
    /// The supported versions that use the flexible encoding.
    pub fn effective_flexible_versions(&self) -> (r: VersionSet)
        ensures
            r@ == self.flexible_versions@.intersect(self.valid_versions@),
    {
        self.flexible_versions.intersection(&self.valid_versions)
    }
}

/// The version universe one owner's fields are rendered against.
///
/// A message renders against its own windows. A struct it declares renders
/// against the narrower windows of its declaration, while still belonging to
/// the message for naming, imports and diagnostics.
pub struct Scope<'a> {
    pub message: &'a Message,
    pub valid_versions: VersionSet,
    /// Supported versions that use the flexible encoding.
    pub flexible_versions: VersionSet,
}

/// A scope as contracts speak of it: its message and its two windows.
pub struct ScopeView<'a> {
    pub message: &'a Message,
    pub valid: Set<int>,
    pub flexible: Set<int>,
}

impl<'a> View for Scope<'a> {
    type V = ScopeView<'a>;

    open spec fn view(&self) -> ScopeView<'a> {
        ScopeView { message: self.message, valid: self.valid_versions@, flexible: self.flexible_versions@ }
    }
}

impl<'a> Scope<'a> {
    /// A message's own windows.
    pub fn of(message: &'a Message) -> (r: Scope<'a>)
        ensures
            r.message == message,
            r.valid_versions@ == message.valid_versions@,
            r.flexible_versions@ == message.flexible_versions@.intersect(message.valid_versions@),
    {
        Scope {
            message,
            valid_versions: message.valid_versions.duplicate(),
            flexible_versions: message.effective_flexible_versions(),
        }
    }

    /// The windows of a struct `message` declares.
    pub fn nested(message: &'a Message, valid: &VersionSet, flexible: &VersionSet) -> (r: Scope<'a>)
        ensures
            r.message == message,
            r.valid_versions@ == valid@,
            r.flexible_versions@ == flexible@.intersect(valid@),
    {
        Scope { message, valid_versions: valid.duplicate(), flexible_versions: flexible.intersection(valid) }
    }
}

/// What went wrong, as a value the contracts can speak of.
pub enum Fault {
    Unsupported { message: Seq<char>, field: Seq<char>, reason: Seq<char> },
    InternalInvariant { message: Seq<char>, detail: Seq<char> },
    SourceHash { path: Seq<char>, expected: Seq<char>, actual: Seq<char> },
}

/// Why generation stopped.
#[derive(Debug, PartialEq, Eq)]
pub enum GenerationError {
    /// A construct the backend has no rendering for.
    Unsupported { message: String, field: String, reason: String },
    /// A fact earlier validation should have established did not hold.
    InternalInvariant { message: String, detail: String },
    /// A pinned source file's bytes no longer hash to its recorded digest.
    SourceHash { path: String, expected: String, actual: String },
}

impl View for GenerationError {
    type V = Fault;

    open spec fn view(&self) -> Fault {
        match self {
            GenerationError::Unsupported { message, field, reason } => Fault::Unsupported {
                message: message@,
                field: field@,
                reason: reason@,
            },
            GenerationError::InternalInvariant { message, detail } => Fault::InternalInvariant {
                message: message@,
                detail: detail@,
            },
            GenerationError::SourceHash { path, expected, actual } => Fault::SourceHash {
                path: path@,
                expected: expected@,
                actual: actual@,
            },
        }
    }
}

impl GenerationError {
    /// A construct of `message`'s `field` the backend does not render.
    pub fn unsupported(message: &Message, field: &str, reason: &str) -> (r: GenerationError)
        ensures
            r@ == (Fault::Unsupported { message: message.name.text@, field: field@, reason: reason@ }),
    {
        GenerationError::Unsupported {
            message: owned(message.name.protocol()),
            field: owned(field),
            reason: owned(reason),
        }
    }

    /// A broken invariant of `message`.
    pub fn internal(message: &Message, detail: &str) -> (r: GenerationError)
        ensures
            r@ == (Fault::InternalInvariant { message: message.name.text@, detail: detail@ }),
    {
        GenerationError::InternalInvariant { message: owned(message.name.protocol()), detail: owned(detail) }
    }

    /// The diagnostic, naming the message and field it is about.
    pub fn describe(&self) -> (r: String)
        ensures
            r@ == describe_fault(self@),
    {
        match self {
            GenerationError::Unsupported { message, field, reason } => {
                let mut r = owned("unsupported construct `");
                r.append(message.as_str());
                r.append(".");
                r.append(field.as_str());
                r.append("`: ");
                r.append(reason.as_str());
                r
            },
            GenerationError::InternalInvariant { message, detail } => {
                let mut r = owned("internal invariant broken for `");
                r.append(message.as_str());
                r.append("`: ");
                r.append(detail.as_str());
                r
            },
            GenerationError::SourceHash { path, expected, actual } => {
                let mut r = owned("source `");
                r.append(path.as_str());
                r.append("` does not match its locked SHA-256: expected ");
                r.append(expected.as_str());
                r.append(", found ");
                r.append(actual.as_str());
                r
            },
        }
    }
}

/// The diagnostic text of a fault.
pub open spec fn describe_fault(f: Fault) -> Seq<char> {
    match f {
        Fault::Unsupported { message, field, reason } => "unsupported construct `"@ + message + "."@ + field
            + "`: "@ + reason,
        Fault::InternalInvariant { message, detail } => "internal invariant broken for `"@ + message
            + "`: "@ + detail,
        Fault::SourceHash { path, expected, actual } => "source `"@ + path + "` does not match its locked SHA-256: expected "@
            + expected + ", found "@ + actual,
    }
}

/// A rendered text, or the fault that stopped it, as contracts state results.
pub open spec fn outcome(r: Result<String, GenerationError>) -> Result<Seq<char>, Fault> {
    match r {
        Ok(s) => Ok(s@),
        Err(e) => Err(e@),
    }
}

} // verus!
