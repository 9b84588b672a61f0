//! Adversarial rendered source for behavioural probes of the emitter.
//!
//! Each fixture owns a synthetic pair of schemas that reproduces an
//! emitter-only failure shape absent from the pinned Kafka corpus: sibling
//! fields whose names once aliased one decode local, structs named like
//! prelude items, and nested float defaults. It does not affect production
//! output.

use vstd::prelude::*;

use crate::api::file::{api_fault, api_text, render_api};
use crate::group::{ApiGroup, MessageSource};
use crate::schema::{
    CommonStruct, DefaultValue, Fault, Field, FieldName, FieldType, FloatDefault, GenerationError, Message, MessageKind,
    MessageName, StructDeclaration, StructOrigin, StructRef, StructTable,
};
use crate::strings::owned;
use crate::text::trimmed;
use crate::versions::{interval, VersionSet, TOP_VERSION};

verus! {

/// The commit label every fixture is rendered at.
pub open spec fn fixture_commit() -> Seq<char> {
    "verification-fixture"@
}

/// What `render_api` promises for `group` at the fixture commit.
pub open spec fn rendered_as(r: Result<String, GenerationError>, group: &ApiGroup) -> bool {
    match api_fault(group) {
        None => r matches Ok(s) && s@ == trimmed(api_text(group, fixture_commit())),
        Some(f) => r matches Err(e) && e@ == f,
    }
}

/// A member with no nullability, no tag, no override, and no prose.
pub open spec fn plain(f: Field, name: Seq<char>, versions: Set<int>) -> bool {
    &&& f.name.text@ == name
    &&& f.versions@ == versions
    &&& f.nullable_versions@ == Set::<int>::empty()
    &&& !f.ignorable
    &&& f.flexible_versions is None
    &&& f.about@ == Seq::<char>::empty()
}

/// An untagged `int32` member defaulting to zero.
pub open spec fn int32_member(f: Field, name: Seq<char>, versions: Set<int>) -> bool {
    &&& plain(f, name, versions)
    &&& f.ty == FieldType::Int32
    &&& f.tagged_versions@ == Set::<int>::empty()
    &&& f.tag is None
    &&& f.default == DefaultValue::Integer(0)
    &&& f.fields@.len() == 0
}

/// An untagged `float64` member with the default of bit pattern `bits`.
pub open spec fn float_member(f: Field, name: Seq<char>, versions: Set<int>, bits: u64) -> bool {
    &&& plain(f, name, versions)
    &&& f.ty == FieldType::Float64
    &&& f.tagged_versions@ == Set::<int>::empty()
    &&& f.tag is None
    &&& f.default == DefaultValue::Float(FloatDefault { bits })
    &&& f.fields@.len() == 0
}

/// Whether `ty` names the struct `declared` of `owner`, spelled as declared, in an array or not.
pub open spec fn names(ty: FieldType, owner: Seq<char>, declared: Seq<char>, array: bool) -> bool {
    if array {
        ty matches FieldType::Array(element) && (*element matches FieldType::Struct(r) && r.owner@ == owner
            && r.declared@ == declared && r.spelling@ == declared)
    } else {
        ty matches FieldType::Struct(r) && r.owner@ == owner && r.declared@ == declared && r.spelling@ == declared
    }
}

/// A struct-valued member, tagged with `tag` in `tagged` where it has one.
pub open spec fn struct_member(
    f: Field,
    name: Seq<char>,
    versions: Set<int>,
    owner: Seq<char>,
    declared: Seq<char>,
    array: bool,
    tag: Option<u32>,
    tagged: Set<int>,
) -> bool {
    &&& plain(f, name, versions)
    &&& names(f.ty, owner, declared, array)
    &&& f.tag == tag
    &&& f.tagged_versions@ == tagged
    &&& f.default == if array { DefaultValue::Empty } else { DefaultValue::StructDefaults }
}

/// One declaration-table entry, spelled as declared.
pub open spec fn declares(d: StructDeclaration, owner: Seq<char>, declared: Seq<char>, origin: StructOrigin, versions: Set<int>) -> bool {
    &&& d.name.owner@ == owner
    &&& d.name.declared@ == declared
    &&& d.name.spelling@ == declared
    &&& d.origin == origin
    &&& d.versions@ == versions
}

/// A message header: name, direction, key, and windows.
pub open spec fn heads(m: &Message, name: Seq<char>, kind: MessageKind, api_key: i16, valid: Set<int>, flexible: Set<int>) -> bool {
    &&& m.name.text@ == name
    &&& m.kind == kind
    &&& m.api_key == Some(api_key)
    &&& m.valid_versions@ == valid
    &&& m.flexible_versions@ == flexible
    &&& !m.latest_version_unstable
}

/// The request and response whose sibling names once aliased a decode local.
pub open spec fn decode_pair(g: &ApiGroup) -> bool {
    let request = &g.request.message;
    let response = &g.response.message;
    let only = interval(0, 0);
    let owner = "AdversarialDecodeResponse"@;
    let shapes = seq!["Results"@, "Options"@, "Vectors"@, "Defaults"@, "ProtocolEqualities"@];
    let structs = seq!["Result"@, "Option"@, "Vec"@, "Default"@, "ProtocolEq"@];
    &&& g.api_key == 1000
    &&& g.request.filename@ == "AdversarialDecodeRequest.json"@
    &&& g.response.filename@ == "AdversarialDecodeResponse.json"@
    &&& g.request.sha256@ == fixture_commit()
    &&& g.response.sha256@ == fixture_commit()
    &&& heads(request, "AdversarialDecodeRequest"@, MessageKind::Request, 1000, only, Set::empty())
    &&& request.common_structs@.len() == 0
    &&& request.structs.declarations@.len() == 0
    &&& request.fields@.len() == 2
    &&& int32_member(request.fields@[0], "Version"@, only)
    &&& int32_member(request.fields@[1], "VersionValue"@, only)
    &&& heads(response, owner, MessageKind::Response, 1000, only, Set::empty())
    &&& response.common_structs@.len() == 0
    &&& response.fields@.len() == 5
    &&& response.structs.declarations@.len() == 5
    &&& forall|i: int|
        0 <= i < 5 ==> {
            let f = #[trigger] response.fields@[i];
            &&& struct_member(f, shapes[i], only, owner, structs[i], true, None, Set::empty())
            &&& f.fields@.len() == 1
            &&& int32_member(f.fields@[0], "Value"@, only)
            &&& declares(response.structs.declarations@[i], owner, structs[i], StructOrigin::Inline, only)
        }
}

/// The request whose nested float defaults exercise recursive protocol
/// semantics, and its empty response.
pub open spec fn defaults_pair(g: &ApiGroup) -> bool {
    let request = &g.request.message;
    let response = &g.response.message;
    let both = interval(0, 1);
    let all = interval(0, TOP_VERSION as int);
    let later = interval(1, TOP_VERSION as int);
    let reachable = interval(1, 1);
    let owner = "AdversarialDefaultsRequest"@;
    let nan: u64 = 0x7ff8_0000_0000_0000;
    let negative_zero: u64 = 0x8000_0000_0000_0000;
    let f = request.fields@;
    let outer = request.common_structs@[0];
    &&& g.api_key == 1001
    &&& g.request.filename@ == "AdversarialDefaultsRequest.json"@
    &&& g.response.filename@ == "AdversarialDefaultsResponse.json"@
    &&& g.request.sha256@ == fixture_commit()
    &&& g.response.sha256@ == fixture_commit()
    &&& heads(request, owner, MessageKind::Request, 1001, both, later)
    &&& f.len() == 7
    &&& int32_member(f[0], "Version"@, all)
    &&& int32_member(f[1], "VersionValue"@, all)
    &&& struct_member(f[2], "GatedNan"@, later, owner, "GatedNan"@, false, None, Set::empty())
    &&& f[2].fields@.len() == 1 && float_member(f[2].fields@[0], "Value"@, later, nan)
    &&& struct_member(f[3], "GatedNegativeZero"@, later, owner, "GatedNegativeZero"@, false, None, Set::empty())
    &&& f[3].fields@.len() == 1 && float_member(f[3].fields@[0], "Value"@, later, negative_zero)
    &&& struct_member(f[4], "TaggedNan"@, later, owner, "TaggedNan"@, false, Some(0u32), later)
    &&& f[4].fields@.len() == 1 && float_member(f[4].fields@[0], "Value"@, later, nan)
    &&& struct_member(f[5], "TaggedNegativeZero"@, later, owner, "TaggedNegativeZero"@, false, Some(1u32), later)
    &&& f[5].fields@.len() == 1 && float_member(f[5].fields@[0], "Value"@, later, negative_zero)
    &&& struct_member(f[6], "Deep"@, later, owner, "DeepOuter"@, false, None, Set::empty())
    &&& f[6].fields@.len() == 0
    &&& request.common_structs@.len() == 1
    &&& outer.name.owner@ == owner && outer.name.declared@ == "DeepOuter"@ && outer.name.spelling@ == "DeepOuter"@ && outer.versions@ == later
    &&& outer.fields@.len() == 1
    &&& struct_member(outer.fields@[0], "Inner"@, later, owner, "DeepInner"@, false, None, Set::empty())
    &&& outer.fields@[0].fields@.len() == 1 && float_member(outer.fields@[0].fields@[0], "Value"@, later, nan)
    &&& request.structs.declarations@.len() == 6
    &&& declares(request.structs.declarations@[0], owner, "GatedNan"@, StructOrigin::Inline, reachable)
    &&& declares(request.structs.declarations@[1], owner, "GatedNegativeZero"@, StructOrigin::Inline, reachable)
    &&& declares(request.structs.declarations@[2], owner, "TaggedNan"@, StructOrigin::Inline, reachable)
    &&& declares(request.structs.declarations@[3], owner, "TaggedNegativeZero"@, StructOrigin::Inline, reachable)
    &&& declares(request.structs.declarations@[4], owner, "DeepOuter"@, StructOrigin::Common, reachable)
    &&& declares(request.structs.declarations@[5], owner, "DeepInner"@, StructOrigin::Inline, reachable)
    &&& heads(response, "AdversarialDefaultsResponse"@, MessageKind::Response, 1001, both, later)
    &&& response.fields@.len() == 0
    &&& response.common_structs@.len() == 0
    &&& response.structs.declarations@.len() == 0
}

fn versions(start: i16, end: Option<i16>) -> (r: VersionSet)
    requires
        0 <= start,
        end matches Some(e) ==> start <= e,
    ensures
        r@ == interval(start as int, match end { Some(e) => e as int, None => TOP_VERSION as int }),
{
    VersionSet::interval(start, end)
}

fn member(name: &str, ty: FieldType, versions: VersionSet, default: DefaultValue, fields: Vec<Field>) -> (r: Field)
    ensures
        r.name.text@ == name@,
        r.ty == ty,
        r.versions@ == versions@,
        r.nullable_versions@ == Set::<int>::empty(),
        r.tagged_versions@ == Set::<int>::empty(),
        r.tag is None,
        r.default == default,
        !r.ignorable,
        r.flexible_versions is None,
        r.about@ == Seq::<char>::empty(),
        r.fields@ == fields@,
{
    Field {
        name: FieldName::new(name),
        ty,
        versions,
        nullable_versions: VersionSet::none(),
        tagged_versions: VersionSet::none(),
        tag: None,
        default,
        ignorable: false,
        flexible_versions: None,
        about: String::new(),
        fields,
    }
}

fn int32(name: &str, versions: VersionSet) -> (r: Field)
    ensures
        int32_member(r, name@, versions@),
{
    member(name, FieldType::Int32, versions, DefaultValue::Integer(0), Vec::new())
}

fn float(name: &str, versions: VersionSet, bits: u64) -> (r: Field)
    ensures
        float_member(r, name@, versions@, bits),
{
    member(name, FieldType::Float64, versions, DefaultValue::Float(FloatDefault { bits }), Vec::new())
}

fn struct_type(owner: &MessageName, declared: &str, array: bool) -> (r: FieldType)
    ensures
        names(r, owner.text@, declared@, array),
{
    let reference = FieldType::Struct(StructRef::scoped(owner, declared));
    if array {
        FieldType::Array(Box::new(reference))
    } else {
        reference
    }
}

fn declaration(owner: &MessageName, declared: &str, origin: StructOrigin, versions: VersionSet) -> (r: StructDeclaration)
    ensures
        declares(r, owner.text@, declared@, origin, versions@),
{
    StructDeclaration { name: StructRef::scoped(owner, declared), origin, versions }
}

fn source(message: Message, filename: &str) -> (r: MessageSource)
    ensures
        r.message == message,
        r.filename@ == filename@,
        r.sha256@ == fixture_commit(),
{
    MessageSource { message, filename: owned(filename), sha256: owned("verification-fixture") }
}

fn message(
    name: &str,
    kind: MessageKind,
    api_key: i16,
    valid: VersionSet,
    flexible: VersionSet,
    fields: Vec<Field>,
    common_structs: Vec<CommonStruct>,
    declarations: Vec<StructDeclaration>,
) -> (r: Message)
    ensures
        heads(&r, name@, kind, api_key, valid@, flexible@),
        r.fields@ == fields@,
        r.common_structs@ == common_structs@,
        r.structs.declarations@ == declarations@,
{
    Message {
        api_key: Some(api_key),
        kind,
        name: MessageName::new(name),
        valid_versions: valid,
        flexible_versions: flexible,
        latest_version_unstable: false,
        common_structs,
        fields,
        structs: StructTable { declarations },
    }
}

/// The result when two fixture schemas do not pair into one API group.
fn unpaired(message: &Message) -> (e: GenerationError)
    ensures
        e@ == (Fault::InternalInvariant {
            message: message.name.text@,
            detail: "verification pair did not produce an API group"@,
        }),
{
    GenerationError::internal(message, "verification pair did not produce an API group")
}

fn decode_response() -> (r: Message)
    ensures
        heads(&r, "AdversarialDecodeResponse"@, MessageKind::Response, 1000, interval(0, 0), Set::empty()),
        r.common_structs@.len() == 0,
        r.fields@.len() == 5,
        r.structs.declarations@.len() == 5,
        forall|i: int|
            0 <= i < 5 ==> {
                let f = #[trigger] r.fields@[i];
                &&& struct_member(
                    f,
                    seq!["Results"@, "Options"@, "Vectors"@, "Defaults"@, "ProtocolEqualities"@][i],
                    interval(0, 0),
                    "AdversarialDecodeResponse"@,
                    seq!["Result"@, "Option"@, "Vec"@, "Default"@, "ProtocolEq"@][i],
                    true,
                    None,
                    Set::empty(),
                )
                &&& f.fields@.len() == 1
                &&& int32_member(f.fields@[0], "Value"@, interval(0, 0))
                &&& declares(
                    r.structs.declarations@[i],
                    "AdversarialDecodeResponse"@,
                    seq!["Result"@, "Option"@, "Vec"@, "Default"@, "ProtocolEq"@][i],
                    StructOrigin::Inline,
                    interval(0, 0),
                )
            },
{
    let owner = MessageName::new("AdversarialDecodeResponse");
    let shapes: [&str; 5] = ["Results", "Options", "Vectors", "Defaults", "ProtocolEqualities"];
    let structs: [&str; 5] = ["Result", "Option", "Vec", "Default", "ProtocolEq"];
    let mut fields: Vec<Field> = Vec::new();
    let mut declarations: Vec<StructDeclaration> = Vec::new();
    let mut i: usize = 0;
    while i < 5
        invariant
            i <= 5,
            owner.text@ == "AdversarialDecodeResponse"@,
            shapes@.map_values(|s: &str| s@) == seq!["Results"@, "Options"@, "Vectors"@, "Defaults"@, "ProtocolEqualities"@],
            structs@.map_values(|s: &str| s@) == seq!["Result"@, "Option"@, "Vec"@, "Default"@, "ProtocolEq"@],
            fields@.len() == i,
            declarations@.len() == i,
            forall|k: int|
                0 <= k < i ==> {
                    let f = #[trigger] fields@[k];
                    &&& struct_member(
                        f,
                        shapes@[k]@,
                        interval(0, 0),
                        "AdversarialDecodeResponse"@,
                        structs@[k]@,
                        true,
                        None,
                        Set::empty(),
                    )
                    &&& f.fields@.len() == 1
                    &&& int32_member(f.fields@[0], "Value"@, interval(0, 0))
                    &&& declares(
                        declarations@[k],
                        "AdversarialDecodeResponse"@,
                        structs@[k]@,
                        StructOrigin::Inline,
                        interval(0, 0),
                    )
                },
        decreases 5 - i,
    {
        let value = int32("Value", versions(0, Some(0)));
        let members = vec![value];
        let ty = struct_type(&owner, structs[i], true);
        fields.push(member(shapes[i], ty, versions(0, Some(0)), DefaultValue::Empty, members));
        declarations.push(declaration(&owner, structs[i], StructOrigin::Inline, versions(0, Some(0))));
        i = i + 1;
    }
    proof {
        assert forall|k: int| 0 <= k < 5 implies shapes@[k]@ == seq![
            "Results"@,
            "Options"@,
            "Vectors"@,
            "Defaults"@,
            "ProtocolEqualities"@,
        ][k] && structs@[k]@ == seq!["Result"@, "Option"@, "Vec"@, "Default"@, "ProtocolEq"@][k] by {
            assert(shapes@.map_values(|s: &str| s@)[k] == shapes@[k]@);
            assert(structs@.map_values(|s: &str| s@)[k] == structs@[k]@);
        }
    }
    message(
        "AdversarialDecodeResponse",
        MessageKind::Response,
        1000,
        versions(0, Some(0)),
        VersionSet::none(),
        fields,
        Vec::new(),
        declarations,
    )
}

/// Renders a pair whose sibling field names once aliased one decode local,
/// and whose structs are named like prelude items.
pub fn render_adversarial_decode_fixture() -> (r: Result<String, GenerationError>)
    ensures
        exists|g: ApiGroup| #[trigger] decode_pair(&g) && rendered_as(r, &g),
{
    let request_fields = vec![int32("Version", versions(0, Some(0))), int32("VersionValue", versions(0, Some(0)))];
    let request = message(
        "AdversarialDecodeRequest",
        MessageKind::Request,
        1000,
        versions(0, Some(0)),
        VersionSet::none(),
        request_fields,
        Vec::new(),
        Vec::new(),
    );
    let response = decode_response();
    let request = source(request, "AdversarialDecodeRequest.json");
    let response = source(response, "AdversarialDecodeResponse.json");
    let group = match ApiGroup::pair(request, response) {
        Some(group) => group,
        None => {
            let stub = message(
                "AdversarialDecodeRequest",
                MessageKind::Request,
                1000,
                versions(0, Some(0)),
                VersionSet::none(),
                Vec::new(),
                Vec::new(),
                Vec::new(),
            );
            assert(false);
            return Err(unpaired(&stub));
        },
    };
    let r = render_api(&group, "verification-fixture");
    assert(decode_pair(&group) && rendered_as(r, &group));
    r
}

fn tagged_struct(owner: &MessageName, name: &str, tag: u32, bits: u64) -> (r: Field)
    ensures
        struct_member(r, name@, interval(1, TOP_VERSION as int), owner.text@, name@, false, Some(tag), interval(1, TOP_VERSION as int)),
        r.fields@.len() == 1,
        float_member(r.fields@[0], "Value"@, interval(1, TOP_VERSION as int), bits),
{
    let mut r = member(
        name,
        struct_type(owner, name, false),
        versions(1, None),
        DefaultValue::StructDefaults,
        vec![float("Value", versions(1, None), bits)],
    );
    r.tagged_versions = versions(1, None);
    r.tag = Some(tag);
    r
}

fn gated_struct(owner: &MessageName, name: &str, declared: &str, members: Vec<Field>) -> (r: Field)
    ensures
        struct_member(r, name@, interval(1, TOP_VERSION as int), owner.text@, declared@, false, None, Set::empty()),
        r.fields@ == members@,
{
    member(name, struct_type(owner, declared, false), versions(1, None), DefaultValue::StructDefaults, members)
}

/// Renders nested float defaults that exercise recursive protocol semantics.
pub fn render_adversarial_defaults_fixture() -> (r: Result<String, GenerationError>)
    ensures
        exists|g: ApiGroup| #[trigger] defaults_pair(&g) && rendered_as(r, &g),
{
    let nan: u64 = 0x7ff8_0000_0000_0000;
    let negative_zero: u64 = 0x8000_0000_0000_0000;
    let owner = MessageName::new("AdversarialDefaultsRequest");
    let fields = vec![
        int32("Version", versions(0, None)),
        int32("VersionValue", versions(0, None)),
        gated_struct(&owner, "GatedNan", "GatedNan", vec![float("Value", versions(1, None), nan)]),
        gated_struct(&owner, "GatedNegativeZero", "GatedNegativeZero", vec![float("Value", versions(1, None), negative_zero)]),
        tagged_struct(&owner, "TaggedNan", 0, nan),
        tagged_struct(&owner, "TaggedNegativeZero", 1, negative_zero),
        gated_struct(&owner, "Deep", "DeepOuter", Vec::new()),
    ];
    let inner = gated_struct(&owner, "Inner", "DeepInner", vec![float("Value", versions(1, None), nan)]);
    let outer = CommonStruct {
        name: StructRef::scoped(&owner, "DeepOuter"),
        versions: versions(1, None),
        fields: vec![inner],
    };
    let declarations = vec![
        declaration(&owner, "GatedNan", StructOrigin::Inline, versions(1, Some(1))),
        declaration(&owner, "GatedNegativeZero", StructOrigin::Inline, versions(1, Some(1))),
        declaration(&owner, "TaggedNan", StructOrigin::Inline, versions(1, Some(1))),
        declaration(&owner, "TaggedNegativeZero", StructOrigin::Inline, versions(1, Some(1))),
        declaration(&owner, "DeepOuter", StructOrigin::Common, versions(1, Some(1))),
        declaration(&owner, "DeepInner", StructOrigin::Inline, versions(1, Some(1))),
    ];
    let request = message(
        "AdversarialDefaultsRequest",
        MessageKind::Request,
        1001,
        versions(0, Some(1)),
        versions(1, None),
        fields,
        vec![outer],
        declarations,
    );
    let response = message(
        "AdversarialDefaultsResponse",
        MessageKind::Response,
        1001,
        versions(0, Some(1)),
        versions(1, None),
        Vec::new(),
        Vec::new(),
        Vec::new(),
    );
    let request = source(request, "AdversarialDefaultsRequest.json");
    let response = source(response, "AdversarialDefaultsResponse.json");
    let group = match ApiGroup::pair(request, response) {
        Some(group) => group,
        None => {
            let stub = message(
                "AdversarialDefaultsRequest",
                MessageKind::Request,
                1001,
                versions(0, Some(1)),
                versions(1, None),
                Vec::new(),
                Vec::new(),
                Vec::new(),
            );
            assert(false);
            return Err(unpaired(&stub));
        },
    };
    let r = render_api(&group, "verification-fixture");
    assert(defaults_pair(&group) && rendered_as(r, &group));
    r
}

} // verus!
