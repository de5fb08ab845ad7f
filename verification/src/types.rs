//! The language-neutral intermediate representation of exported types, and
//! the name transformer used by renaming policies.

use vstd::prelude::*;

use crate::text::{
    char_is_uppercase, char_to_lowercase, char_to_uppercase, char_to_uppercase_full, push_char,
    spec_is_upper, spec_lower_chars, spec_lower_str, spec_upper_chars, spec_upper_str, str_chars,
    str_to_lowercase, str_to_uppercase,
};

verus! {

/// One exported type: its name, shape, documentation and attributes.
#[derive(Debug)]
pub struct GearMeshType {
    /// The declared name, unique within a generation batch.
    pub name: String,
    /// The shape of the type.
    pub kind: TypeKind,
    /// The documentation comment, if any.
    pub docs: Option<crate::docs::DocComment>,
    /// The type parameters, in order.
    pub generics: Vec<GenericParam>,
    /// Generation attributes.
    pub attributes: TypeAttributes,
}

/// The shape of an exported type.
#[derive(Debug)]
pub enum TypeKind {
    /// A primitive scalar.
    Primitive(PrimitiveType),
    /// A struct with named fields.
    Struct(StructType),
    /// A tagged union.
    Enum(EnumType),
    /// A single-field wrapper.
    Newtype(NewtypeType),
    /// A fixed-arity tuple.
    Tuple(Vec<TypeRef>),
    /// A homogeneous sequence.
    Array(Box<TypeRef>),
    /// An optional value.
    Option(Box<TypeRef>),
    /// A fallible value.
    Result { ok: Box<TypeRef>, err: Box<TypeRef> },
    /// An associative container.
    Mapping { key: Box<TypeRef>, value: Box<TypeRef> },
    /// A reference to another type by name.
    Reference(TypeRef),
}

/// A primitive scalar kind.
#[derive(Debug, Clone, Copy, PartialEq, Eq, Structural)]
pub enum PrimitiveType {
    I8,
    I16,
    I32,
    I64,
    I128,
    Isize,
    U8,
    U16,
    U32,
    U64,
    U128,
    Usize,
    F32,
    F64,
    Bool,
    Char,
    String,
    Unit,
}

/// Whether the primitive is a wide integer, 64 bits or more.
pub open spec fn spec_is_bigint(p: PrimitiveType) -> bool {
    match p {
        PrimitiveType::I64 => true,
        PrimitiveType::I128 => true,
        PrimitiveType::U64 => true,
        PrimitiveType::U128 => true,
        PrimitiveType::Isize => true,
        PrimitiveType::Usize => true,
        _ => false,
    }
}

/// The TypeScript name of a primitive. Wide integers become `bigint` exactly
/// when `use_bigint` is set; every primitive maps to one of `number`,
/// `bigint`, `boolean`, `string` and `null`.
pub open spec fn spec_primitive_ts(p: PrimitiveType, use_bigint: bool) -> Seq<char> {
    if spec_is_bigint(p) {
        if use_bigint {
            "bigint"@
        } else {
            "number"@
        }
    } else {
        match p {
            PrimitiveType::Bool => "boolean"@,
            PrimitiveType::Char => "string"@,
            PrimitiveType::String => "string"@,
            PrimitiveType::Unit => "null"@,
            _ => "number"@,
        }
    }
}

impl PrimitiveType {
    /// Whether this primitive should be represented as `bigint`.
    pub fn is_bigint(&self) -> (r: bool)
        ensures
            r == spec_is_bigint(*self),
    {
        match self {
            PrimitiveType::I64
            | PrimitiveType::I128
            | PrimitiveType::U64
            | PrimitiveType::U128
            | PrimitiveType::Isize
            | PrimitiveType::Usize => true,
            _ => false,
        }
    }

    /// The TypeScript name of this primitive.
    pub fn typescript_type(&self, use_bigint: bool) -> (r: &'static str)
        ensures
            r@ == spec_primitive_ts(*self, use_bigint),
    {
        match self {
            PrimitiveType::I8
            | PrimitiveType::I16
            | PrimitiveType::I32
            | PrimitiveType::U8
            | PrimitiveType::U16
            | PrimitiveType::U32
            | PrimitiveType::F32
            | PrimitiveType::F64 => "number",
            PrimitiveType::I64
            | PrimitiveType::I128
            | PrimitiveType::U64
            | PrimitiveType::U128
            | PrimitiveType::Isize
            | PrimitiveType::Usize => {
                if use_bigint {
                    "bigint"
                } else {
                    "number"
                }
            },
            PrimitiveType::Bool => "boolean",
            PrimitiveType::Char | PrimitiveType::String => "string",
            PrimitiveType::Unit => "null",
        }
    }
}

/// A struct shape: its fields in declaration order.
#[derive(Debug)]
pub struct StructType {
    /// The fields, in order.
    pub fields: Vec<FieldInfo>,
}

/// One struct field.
#[derive(Debug)]
pub struct FieldInfo {
    /// The declared field name.
    pub name: String,
    /// The field's type.
    pub ty: TypeRef,
    /// The field's documentation, if any.
    pub docs: Option<crate::docs::DocComment>,
    /// Validation rules, applied in order.
    pub validations: Vec<crate::validation::ValidationRule>,
    /// Whether the field may be absent.
    pub optional: bool,
    /// Field-level serde attributes.
    pub serde_attrs: SerdeFieldAttrs,
}

/// Field-level serde attributes.
#[derive(Debug, Clone)]
pub struct SerdeFieldAttrs {
    /// The serialized name, when renamed.
    pub rename: Option<String>,
    /// Whether the field is skipped.
    pub skip: bool,
    /// Whether the field has a default.
    pub default: bool,
    /// Whether the field is flattened.
    pub flatten: bool,
}

impl Default for SerdeFieldAttrs {
    /// No rename and every flag off.
    fn default() -> (r: Self)
        ensures
            r.rename is None,
            !r.skip,
            !r.default,
            !r.flatten,
    {
        Self { rename: None, skip: false, default: false, flatten: false }
    }
}

/// A tagged-union shape.
#[derive(Debug)]
pub struct EnumType {
    /// The variants, in order.
    pub variants: Vec<EnumVariant>,
    /// How the tag and payload are encoded.
    pub representation: EnumRepresentation,
}

/// One variant of a tagged union.
#[derive(Debug)]
pub struct EnumVariant {
    /// The variant name.
    pub name: String,
    /// The payload shape.
    pub content: VariantContent,
    /// The variant's documentation, if any.
    pub docs: Option<crate::docs::DocComment>,
}

/// The payload of a variant.
#[derive(Debug)]
pub enum VariantContent {
    /// No payload.
    Unit,
    /// A positional payload.
    Tuple(Vec<TypeRef>),
    /// A named-field payload.
    Struct(Vec<FieldInfo>),
}

/// How a tagged union encodes its tag.
#[derive(Debug, Clone)]
pub enum EnumRepresentation {
    /// The variant name wraps the payload.
    External,
    /// A tag field is injected into the payload.
    Internal { tag: String },
    /// Tag and payload sit under sibling keys.
    Adjacent { tag: String, content: String },
    /// No tag at all.
    Untagged,
}

/// A single-field wrapper shape.
#[derive(Debug)]
pub struct NewtypeType {
    /// The wrapped type.
    pub inner: TypeRef,
}

/// A reference to a type: a name plus its generic arguments.
#[derive(Debug)]
pub struct TypeRef {
    /// A primitive keyword, a container keyword, or a custom name.
    pub name: String,
    /// The generic arguments, in order.
    pub generics: Vec<TypeRef>,
}

impl TypeRef {
    /// A reference without generic arguments.
    pub fn new(name: &str) -> (r: Self)
        ensures
            r.name@ == name@,
            r.generics@.len() == 0,
    {
        Self { name: String::from_str(name), generics: Vec::new() }
    }

    /// A reference with generic arguments.
    pub fn with_generics(name: &str, generics: Vec<TypeRef>) -> (r: Self)
        ensures
            r.name@ == name@,
            r.generics == generics,
    {
        Self { name: String::from_str(name), generics }
    }
}

/// One type parameter with its advisory bounds.
#[derive(Debug, Clone)]
pub struct GenericParam {
    /// The parameter name.
    pub name: String,
    /// Bound hints; the target language does not express them.
    pub bounds: Vec<String>,
}

/// Generation attributes of a type.
#[derive(Debug, Clone)]
pub struct TypeAttributes {
    /// Emit as a branded nominal type.
    pub branded: bool,
    /// Emit validation for this type.
    pub validate: bool,
    /// Widen 64-bit integers automatically.
    pub bigint_auto: bool,
    /// Type-level serde attributes.
    pub serde: SerdeTypeAttrs,
    /// Output path for automatic generation.
    pub output_path: Option<String>,
}

impl Default for TypeAttributes {
    /// Every flag off, default serde attributes, no output path.
    fn default() -> (r: Self)
        ensures
            !r.branded,
            !r.validate,
            !r.bigint_auto,
            r.serde.rename_all is None,
            r.serde.tag is None,
            r.serde.content is None,
            !r.serde.untagged,
            r.output_path is None,
    {
        Self {
            branded: false,
            validate: false,
            bigint_auto: false,
            serde: SerdeTypeAttrs::default(),
            output_path: None,
        }
    }
}

/// Type-level serde attributes.
#[derive(Debug, Clone)]
pub struct SerdeTypeAttrs {
    /// The renaming policy for variant and field names.
    pub rename_all: Option<RenameRule>,
    /// The tag key for internal or adjacent tagging.
    pub tag: Option<String>,
    /// The content key for adjacent tagging.
    pub content: Option<String>,
    /// Whether the union is untagged.
    pub untagged: bool,
}

impl Default for SerdeTypeAttrs {
    /// No renaming, no tag keys, tagged.
    fn default() -> (r: Self)
        ensures
            r.rename_all is None,
            r.tag is None,
            r.content is None,
            !r.untagged,
    {
        Self { rename_all: None, tag: None, content: None, untagged: false }
    }
}

/// A renaming policy.
#[derive(Debug, Clone, Copy, PartialEq, Eq, Structural)]
pub enum RenameRule {
    Lowercase,
    Uppercase,
    CamelCase,
    SnakeCase,
    PascalCase,
    ScreamingSnakeCase,
    KebabCase,
    ScreamingKebabCase,
}

// ---------------------------------------------------------------------------
// The name transformer
// ---------------------------------------------------------------------------
// Case splitting goes by uppercase-letter boundaries alone: every uppercase
// letter that is not the first character starts a new segment, and runs of
// uppercase letters are not collapsed.

/// `snake_case` of `s`, from position `i` on.
pub open spec fn spec_snake_from(s: Seq<char>, i: int) -> Seq<char>
    decreases s.len() - i,
{
    if i < 0 || i >= s.len() {
        Seq::<char>::empty()
    } else {
        (if spec_is_upper(s[i]) && i > 0 {
            seq!['_']
        } else {
            Seq::<char>::empty()
        }) + seq![spec_lower_chars(s[i])[0]] + spec_snake_from(s, i + 1)
    }
}

/// `snake_case` of `s`: an underscore before every non-initial uppercase
/// letter, every character lowercased.
pub open spec fn spec_to_snake(s: Seq<char>) -> Seq<char> {
    spec_snake_from(s, 0)
}

/// `camelCase` of `s`, from position `i` on; `cap` says whether the next
/// letter is capitalized (after an underscore).
pub open spec fn spec_camel_from(s: Seq<char>, i: int, cap: bool) -> Seq<char>
    decreases s.len() - i,
{
    if i < 0 || i >= s.len() {
        Seq::<char>::empty()
    } else if s[i] == '_' {
        spec_camel_from(s, i + 1, true)
    } else if cap {
        seq![spec_upper_chars(s[i])[0]] + spec_camel_from(s, i + 1, false)
    } else if i == 0 {
        seq![spec_lower_chars(s[i])[0]] + spec_camel_from(s, i + 1, false)
    } else {
        seq![s[i]] + spec_camel_from(s, i + 1, false)
    }
}

/// `camelCase` of `s`: underscores dropped, the letter after each underscore
/// uppercased, the first character lowercased, all else kept.
pub open spec fn spec_to_camel(s: Seq<char>) -> Seq<char> {
    spec_camel_from(s, 0, false)
}

/// `PascalCase` of `s`: `camelCase` with the first character uppercased (by
/// its full uppercase mapping).
pub open spec fn spec_to_pascal(s: Seq<char>) -> Seq<char> {
    let camel = spec_to_camel(s);
    if camel.len() == 0 {
        Seq::<char>::empty()
    } else {
        spec_upper_chars(camel[0]) + camel.drop_first()
    }
}

/// `s` with every occurrence of `from` replaced by `to`.
pub open spec fn spec_replace(s: Seq<char>, from: char, to: char) -> Seq<char> {
    Seq::new(s.len(), |i: int| if s[i] == from { to } else { s[i] })
}

/// What `apply` returns for each rule.
pub open spec fn spec_rename(rule: RenameRule, s: Seq<char>) -> Seq<char> {
    match rule {
        RenameRule::Lowercase => spec_lower_str(s),
        RenameRule::Uppercase => spec_upper_str(s),
        RenameRule::CamelCase => spec_to_camel(s),
        RenameRule::SnakeCase => spec_to_snake(s),
        RenameRule::PascalCase => spec_to_pascal(s),
        RenameRule::ScreamingSnakeCase => spec_upper_str(spec_to_snake(s)),
        RenameRule::KebabCase => spec_replace(spec_to_snake(s), '_', '-'),
        RenameRule::ScreamingKebabCase => spec_replace(
            spec_upper_str(spec_to_snake(s)),
            '_',
            '-',
        ),
    }
}

/// `snake_case` of `s`.
pub fn to_snake_case(s: &str) -> (r: String)
    ensures
        r@ == spec_to_snake(s@),
{
    let cs = str_chars(s);
    let n: usize = cs.len();
    let mut r = String::new();
    let mut i: usize = 0;
    proof {
        assert(Seq::<char>::empty() + spec_snake_from(s@, 0) =~= spec_snake_from(s@, 0));
    }
    while i < n
        invariant
            cs@ == s@,
            n == s@.len(),
            i <= n,
            spec_to_snake(s@) == r@ + spec_snake_from(s@, i as int),
        decreases n - i,
    {
        let ghost r0 = r@;
        let c = cs[i];
        if i > 0 && char_is_uppercase(c) {
            push_char(&mut r, '_');
        }
        let lc = char_to_lowercase(c);
        push_char(&mut r, lc);
        proof {
            let piece = (if spec_is_upper(s@[i as int]) && i > 0 {
                seq!['_']
            } else {
                Seq::<char>::empty()
            }) + seq![spec_lower_chars(s@[i as int])[0]];
            assert(r@ =~= r0 + piece);
            assert(r0 + (piece + spec_snake_from(s@, i as int + 1)) =~= (r0 + piece)
                + spec_snake_from(s@, i as int + 1));
        }
        i = i + 1;
    }
    proof {
        assert(r@ + Seq::<char>::empty() =~= r@);
    }
    r
}

/// `camelCase` of `s`.
pub fn to_camel_case(s: &str) -> (r: String)
    ensures
        r@ == spec_to_camel(s@),
{
    let cs = str_chars(s);
    let n: usize = cs.len();
    let mut r = String::new();
    let mut cap = false;
    let mut i: usize = 0;
    proof {
        assert(Seq::<char>::empty() + spec_camel_from(s@, 0, false) =~= spec_camel_from(
            s@,
            0,
            false,
        ));
    }
    while i < n
        invariant
            cs@ == s@,
            n == s@.len(),
            i <= n,
            spec_to_camel(s@) == r@ + spec_camel_from(s@, i as int, cap),
        decreases n - i,
    {
        let ghost r0 = r@;
        let c = cs[i];
        if c == '_' {
            cap = true;
        } else if cap {
            let uc = char_to_uppercase(c);
            push_char(&mut r, uc);
            cap = false;
            proof {
                let piece = seq![spec_upper_chars(s@[i as int])[0]];
                assert(r@ =~= r0 + piece);
                assert(r0 + (piece + spec_camel_from(s@, i as int + 1, false)) =~= (r0 + piece)
                    + spec_camel_from(s@, i as int + 1, false));
            }
        } else if i == 0 {
            let lc = char_to_lowercase(c);
            push_char(&mut r, lc);
            proof {
                let piece = seq![spec_lower_chars(s@[i as int])[0]];
                assert(r@ =~= r0 + piece);
                assert(r0 + (piece + spec_camel_from(s@, i as int + 1, false)) =~= (r0 + piece)
                    + spec_camel_from(s@, i as int + 1, false));
            }
        } else {
            push_char(&mut r, c);
            proof {
                let piece = seq![s@[i as int]];
                assert(r@ =~= r0 + piece);
                assert(r0 + (piece + spec_camel_from(s@, i as int + 1, false)) =~= (r0 + piece)
                    + spec_camel_from(s@, i as int + 1, false));
            }
        }
        i = i + 1;
    }
    proof {
        assert(r@ + Seq::<char>::empty() =~= r@);
    }
    r
}

/// `PascalCase` of `s`.
pub fn to_pascal_case(s: &str) -> (r: String)
    ensures
        r@ == spec_to_pascal(s@),
{
    let camel = to_camel_case(s);
    let cs = str_chars(camel.as_str());
    let n: usize = cs.len();
    if n == 0 {
        return String::new();
    }
    let mut r = char_to_uppercase_full(cs[0]);
    let mut i: usize = 1;
    proof {
        assert(camel@.subrange(1, 1) =~= Seq::<char>::empty());
        assert(r@ + Seq::<char>::empty() =~= r@);
    }
    while i < n
        invariant
            cs@ == camel@,
            n == camel@.len(),
            1 <= i <= n,
            r@ == spec_upper_chars(camel@[0]) + camel@.subrange(1, i as int),
        decreases n - i,
    {
        push_char(&mut r, cs[i]);
        i = i + 1;
        proof {
            assert(r@ =~= spec_upper_chars(camel@[0]) + camel@.subrange(1, i as int));
        }
    }
    proof {
        assert(camel@.subrange(1, n as int) =~= camel@.drop_first());
    }
    r
}

/// `s` with every `from` character replaced by `to`.
fn replace_char(s: &str, from: char, to: char) -> (r: String)
    ensures
        r@ == spec_replace(s@, from, to),
{
    let cs = str_chars(s);
    let n: usize = cs.len();
    let mut r = String::new();
    let mut i: usize = 0;
    while i < n
        invariant
            cs@ == s@,
            n == s@.len(),
            i <= n,
            r@.len() == i,
            forall|j: int|
                0 <= j < i ==> r@[j] == (if s@[j] == from {
                    to
                } else {
                    s@[j]
                }),
        decreases n - i,
    {
        let c = cs[i];
        if c == from {
            push_char(&mut r, to);
        } else {
            push_char(&mut r, c);
        }
        i = i + 1;
    }
    proof {
        assert(r@ =~= spec_replace(s@, from, to));
    }
    r
}

/// Law: primitive lowering is total and stable. Under a given `use_bigint`
/// setting, every primitive kind maps to exactly one of `number`, `bigint`,
/// `boolean`, `string` and `null`, and it maps to `bigint` exactly when the
/// setting is on and the kind is a wide integer.
pub proof fn lemma_primitive_lowering_total(p: PrimitiveType, use_bigint: bool)
    ensures
        spec_primitive_ts(p, use_bigint) == "number"@ || spec_primitive_ts(p, use_bigint)
            == "bigint"@ || spec_primitive_ts(p, use_bigint) == "boolean"@ || spec_primitive_ts(
            p,
            use_bigint,
        ) == "string"@ || spec_primitive_ts(p, use_bigint) == "null"@,
        (spec_primitive_ts(p, use_bigint) == "bigint"@) <==> (use_bigint && spec_is_bigint(p)),
{
    reveal_strlit("number");
    reveal_strlit("bigint");
    reveal_strlit("boolean");
    reveal_strlit("string");
    reveal_strlit("null");
    assert("number"@[0] != "bigint"@[0]);
    assert("boolean"@.len() != "bigint"@.len());
    assert("string"@[0] != "bigint"@[0]);
    assert("null"@.len() != "bigint"@.len());
}

impl RenameRule {
    /// The name `name` projected under this renaming policy. Total over any
    /// identifier-like string.
    pub fn apply(&self, name: &str) -> (r: String)
        ensures
            r@ == spec_rename(*self, name@),
    {
        match self {
            RenameRule::Lowercase => str_to_lowercase(name),
            RenameRule::Uppercase => str_to_uppercase(name),
            RenameRule::CamelCase => to_camel_case(name),
            RenameRule::SnakeCase => to_snake_case(name),
            RenameRule::PascalCase => to_pascal_case(name),
            RenameRule::ScreamingSnakeCase => {
                let sn = to_snake_case(name);
                str_to_uppercase(sn.as_str())
            },
            RenameRule::KebabCase => {
                let sn = to_snake_case(name);
                replace_char(sn.as_str(), '_', '-')
            },
            RenameRule::ScreamingKebabCase => {
                let sn = to_snake_case(name);
                let up = str_to_uppercase(sn.as_str());
                replace_char(up.as_str(), '_', '-')
            },
        }
    }
}

} // verus!
