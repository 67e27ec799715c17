//! Schemas of providers, resources, data sources and functions.
//!
//! Named collections (attributes of a block, nested blocks, fields of an object type)
//! are lists of `(name, item)` pairs; names are expected to be unique.

use vstd::prelude::*;

use crate::file::codec::hex_digit;

verus! {

/// Kind of description
#[derive(Clone, Copy, PartialEq, Eq, Hash, Debug)]
pub enum StringKind {
    /// Plain text
    Plain,
    /// Markdown text
    Markdown,
}

impl Default for StringKind {
    fn default() -> (r: Self)
        ensures
            r is Plain,
    {
        StringKind::Plain
    }
}

/// Description
#[derive(Debug)]
pub struct Description {
    /// Kind of the description (either `Plain` or `Markdown`)
    pub kind: StringKind,
    /// Content of the description
    pub content: String,
}

impl Clone for Description {
    fn clone(&self) -> (r: Self)
        ensures
            r.kind == self.kind,
            r.content@ == self.content@,
    {
        Description { kind: self.kind, content: self.content.clone() }
    }
}

impl Description {
    /// Create a plain description
    pub fn plain(content: &str) -> (r: Self)
        ensures
            r.kind is Plain,
            r.content@ == content@,
    {
        Self { kind: StringKind::Plain, content: content.to_owned() }
    }

    /// Create a markdown description
    pub fn markdown(content: &str) -> (r: Self)
        ensures
            r.kind is Markdown,
            r.content@ == content@,
    {
        Self { kind: StringKind::Markdown, content: content.to_owned() }
    }
}

/// Nesting mode of a nested block
#[derive(Debug)]
pub enum NestedBlock {
    /// The nested block must appear exactly once
    Single(Block),
    /// The nested block can appear multiple times
    List(Block),
    /// The nested block can appear multiple times (unordered)
    SetOf(Block),
    /// The nested block can appear multiple times and have names
    MapOf(Block),
    /// The nested block can appear at most once (if not given, it will be populate with Nulls)
    Group(Block),
    /// The nested block can appear at most once (if not given, it will be null).
    /// This is implemented with a list block holding zero or one element.
    Optional(Block),
}

/// Block
#[derive(Debug)]
pub struct Block {
    /// Version of the block
    pub version: i64,
    /// Attributes of the block
    pub attributes: Vec<(String, Attribute)>,
    /// Nested blocks of the block
    pub blocks: Vec<(String, NestedBlock)>,
    /// Description for the block
    pub description: Description,
    /// Is the block deprecated
    pub deprecated: bool,
}

impl Default for Block {
    /// Create an empty block (with a version of 1, and a description "empty")
    fn default() -> (r: Block)
        ensures
            r.version == 1,
            r.attributes@.len() == 0,
            r.blocks@.len() == 0,
            r.description.kind is Plain,
            r.description.content@ == "empty"@,
            !r.deprecated,
    {
        Block {
            version: 1,
            attributes: Vec::new(),
            blocks: Vec::new(),
            description: Description::plain("empty"),
            deprecated: false,
        }
    }
}

/// Type of an attribute
#[derive(Debug)]
pub enum AttributeType {
    /// String
    String,
    /// Number (int or float)
    Number,
    /// Boolean
    Bool,
    /// List
    List(Box<AttributeType>),
    /// Set
    SetOf(Box<AttributeType>),
    /// Map
    MapOf(Box<AttributeType>),
    /// Object
    Object(Vec<(String, AttributeType)>),
    /// Tuple
    Tuple(Vec<AttributeType>),
    /// Nested attributes
    AttributeSingle(Vec<(String, Attribute)>),
    /// List of nested attributes
    AttributeList(Vec<(String, Attribute)>),
    /// Set of nested attributes
    AttributeSet(Vec<(String, Attribute)>),
    /// Map of nested attributes
    AttributeMap(Vec<(String, Attribute)>),
    /// Dynamic (serialized into a json pair `[type, value]`)
    Any,
}

/// Constraint on an attribute
#[derive(Clone, Copy, PartialEq, Eq, Hash, Debug)]
pub enum AttributeConstraint {
    /// The attribute is computed, but cannot be specified by the practitioner (output only)
    Computed,
    /// The attribute is optional, and the provider cannot generate a value for it
    Optional,
    /// The attribute is both optional and computed:
    /// the practitioner can omit the value, and the provider can generate a value for it
    OptionalComputed,
    /// The attribute is required
    Required,
}

/// Attribute
#[derive(Debug)]
pub struct Attribute {
    /// Type of the Attribute
    pub attr_type: AttributeType,
    /// Description of the Attribute
    pub description: Description,
    /// Is the attribute required
    pub constraint: AttributeConstraint,
    /// Is the attribute sensitive
    pub sensitive: bool,
    /// Is the attribute deprecated
    pub deprecated: bool,
}

impl Default for Attribute {
    /// A dynamic, optional and computed attribute described as "empty"
    fn default() -> (r: Self)
        ensures
            r.attr_type is Any,
            r.description.kind is Plain,
            r.description.content@ == "empty"@,
            r.constraint is OptionalComputed,
            !r.sensitive,
            !r.deprecated,
    {
        Self {
            attr_type: AttributeType::Any,
            description: Description::plain("empty"),
            constraint: AttributeConstraint::OptionalComputed,
            sensitive: false,
            deprecated: false,
        }
    }
}

/// Schema
#[derive(Debug)]
pub struct Schema {
    /// Version of the schema
    pub version: i64,
    /// Root block of the schema
    pub block: Block,
}

/// Type of a function parameter or result
#[derive(Debug)]
pub enum Type {
    /// String
    String,
    /// Number (int or float)
    Number,
    /// Boolean
    Bool,
    /// List
    List(Box<Type>),
    /// Set
    SetOf(Box<Type>),
    /// Map
    MapOf(Box<Type>),
    /// Object
    Object(Vec<(String, Type)>),
    /// Tuple
    Tuple(Vec<Type>),
    /// Dynamic (serialized into a json pair `[type, value]`)
    Any,
}

/// Function parameter
#[derive(Debug)]
pub struct Parameter {
    /// Name of the parameter
    pub name: String,
    /// Type of the parameter
    pub param_type: Type,
    /// Whether the parameter can be null or not
    ///
    /// When enabled denotes that a null argument value
    /// can be passed to the provider. When disabled,
    /// Terraform returns an error if the argument value is null.
    pub allow_null: bool,
    /// Whether the parameter can be unknown or not
    ///
    /// When enabled denotes that only wholly known
    /// argument values will be passed to the provider. When disabled,
    /// Terraform skips the function call entirely and assumes an unknown
    /// value result from the function.
    pub allow_unknown: bool,
    /// Description of the argument
    pub description: Description,
}

/// Function schema
#[derive(Debug)]
pub struct FunctionSchema {
    /// List of positional function parameters
    pub parameters: Vec<Parameter>,
    /// Optional final parameter which accepts
    /// zero or more argument values, in which Terraform will send an
    /// ordered list of the parameter type
    pub variadic: Option<Parameter>,
    /// Type constraint for the function result
    pub return_type: Type,
    /// Human-readable shortened documentation for the function
    pub summary: String,
    /// Description of the function
    pub description: Description,
    /// Whether the function deprecated
    ///
    /// If the function is deprecated, this field contains the deprecation message
    pub deprecated: Option<String>,
}

impl Default for FunctionSchema {
    /// No parameter, a dynamic result, empty summary and description, not deprecated
    fn default() -> (r: Self)
        ensures
            r.parameters@.len() == 0,
            r.variadic is None,
            r.return_type is Any,
            r.summary@.len() == 0,
            r.description.kind is Plain,
            r.description.content@.len() == 0,
            r.deprecated is None,
    {
        proof {
            reveal_strlit("");
        }
        Self {
            parameters: Vec::new(),
            variadic: None,
            return_type: Type::Any,
            summary: String::new(),
            description: Description::plain(""),
            deprecated: None,
        }
    }
}

/// How a character stands in a JSON string literal as serde_json writes it: `"` and `\` are
/// escaped by a backslash; backspace, tab, newline, form feed and carriage return become
/// `\b`, `\t`, `\n`, `\f`, `\r`; the other control characters below `0x20` become `\u00`
/// and two lowercase hexadecimal digits; every other character stands for itself
pub open spec fn json_escape_char(c: char) -> Seq<char> {
    if c == '"' {
        seq!['\\', '"']
    } else if c == '\\' {
        seq!['\\', '\\']
    } else if c == '\u{8}' {
        seq!['\\', 'b']
    } else if c == '\t' {
        seq!['\\', 't']
    } else if c == '\n' {
        seq!['\\', 'n']
    } else if c == '\u{c}' {
        seq!['\\', 'f']
    } else if c == '\r' {
        seq!['\\', 'r']
    } else if (c as u32) < 0x20 {
        seq!['\\', 'u', '0', '0', hex_digit((c as u32 / 16) as int), hex_digit((c as u32 % 16) as int)]
    } else {
        seq![c]
    }
}

/// The characters of `s`, each as it stands in a JSON string literal
pub open spec fn json_escape(s: Seq<char>) -> Seq<char>
    decreases s.len(),
{
    if s.len() == 0 {
        Seq::empty()
    } else {
        json_escape(s.drop_last()) + json_escape_char(s.last())
    }
}

/// The JSON string literal of `s` (`serde_json::to_string` of a `str`): the escaped
/// characters between double quotes
pub open spec fn json_quoted(s: Seq<char>) -> Seq<char> {
    seq!['"'] + json_escape(s) + seq!['"']
}

/// The JSON string literal of a text (`serde_json::to_string` of a `str`).
///
/// Trusted: the result is [`json_quoted`] of the characters of `s`, as serde_json's
/// `format_escaped_str` and its table of escapes write it. serde_json writes a `str` into a
/// `Vec`, which cannot fail, so the error arm is never taken.
#[verifier::external_body]
pub(crate) fn json_quote(s: &str) -> (r: String)
    ensures
        r@ == json_quoted(s@),
{
    match serde_json::to_string(s) {
        Ok(text) => text,
        Err(_) => String::new(),
    }
}

/// The JSON pair `[tag, value]`
pub open spec fn tagged_json(tag: Seq<char>, value: Seq<char>) -> Seq<char> {
    seq!['['] + json_quoted(tag) + seq![','] + value + seq![']']
}

/// The JSON of an attribute type: a name for the primitive types, a pair `[kind, element]`
/// for the collections, where nested attributes are objects of their types
pub open spec fn attribute_type_json(t: AttributeType) -> Seq<char>
    decreases t,
{
    match t {
        AttributeType::String => json_quoted("string"@),
        AttributeType::Number => json_quoted("number"@),
        AttributeType::Bool => json_quoted("bool"@),
        AttributeType::Any => json_quoted("dynamic"@),
        AttributeType::List(e) => tagged_json("list"@, attribute_type_json(*e)),
        AttributeType::SetOf(e) => tagged_json("set"@, attribute_type_json(*e)),
        AttributeType::MapOf(e) => tagged_json("map"@, attribute_type_json(*e)),
        AttributeType::Object(fields) => tagged_json(
            "object"@,
            seq!['{'] + field_members_json(fields@) + seq!['}'],
        ),
        AttributeType::Tuple(items) => tagged_json(
            "tuple"@,
            seq!['['] + attribute_types_json(items@) + seq![']'],
        ),
        AttributeType::AttributeSingle(a) => tagged_json(
            "object"@,
            seq!['{'] + attribute_members_json(a@) + seq!['}'],
        ),
        AttributeType::AttributeList(a) => tagged_json(
            "list"@,
            tagged_json("object"@, seq!['{'] + attribute_members_json(a@) + seq!['}']),
        ),
        AttributeType::AttributeSet(a) => tagged_json(
            "set"@,
            tagged_json("object"@, seq!['{'] + attribute_members_json(a@) + seq!['}']),
        ),
        AttributeType::AttributeMap(a) => tagged_json(
            "map"@,
            tagged_json("object"@, seq!['{'] + attribute_members_json(a@) + seq!['}']),
        ),
    }
}

/// The members `"name":type` of the fields of an object type, separated by commas
pub open spec fn field_members_json(f: Seq<(String, AttributeType)>) -> Seq<char>
    decreases f,
{
    if f.len() == 0 {
        Seq::empty()
    } else {
        let last = json_quoted(f.last().0@) + seq![':'] + attribute_type_json(f.last().1);
        if f.len() == 1 {
            last
        } else {
            field_members_json(f.drop_last()) + seq![','] + last
        }
    }
}

/// The members `"name":type` of nested attributes, separated by commas
pub open spec fn attribute_members_json(a: Seq<(String, Attribute)>) -> Seq<char>
    decreases a,
{
    if a.len() == 0 {
        Seq::empty()
    } else {
        let last = json_quoted(a.last().0@) + seq![':'] + attribute_type_json(a.last().1.attr_type);
        if a.len() == 1 {
            last
        } else {
            attribute_members_json(a.drop_last()) + seq![','] + last
        }
    }
}

/// The types of a tuple, separated by commas
pub open spec fn attribute_types_json(t: Seq<AttributeType>) -> Seq<char>
    decreases t,
{
    if t.len() == 0 {
        Seq::empty()
    } else if t.len() == 1 {
        attribute_type_json(t[0])
    } else {
        attribute_types_json(t.drop_last()) + seq![','] + attribute_type_json(t.last())
    }
}

/// The JSON of a function type, in the same form as [`attribute_type_json`]
pub open spec fn type_json(t: Type) -> Seq<char>
    decreases t,
{
    match t {
        Type::String => json_quoted("string"@),
        Type::Number => json_quoted("number"@),
        Type::Bool => json_quoted("bool"@),
        Type::Any => json_quoted("dynamic"@),
        Type::List(e) => tagged_json("list"@, type_json(*e)),
        Type::SetOf(e) => tagged_json("set"@, type_json(*e)),
        Type::MapOf(e) => tagged_json("map"@, type_json(*e)),
        Type::Object(fields) => tagged_json(
            "object"@,
            seq!['{'] + type_members_json(fields@) + seq!['}'],
        ),
        Type::Tuple(items) => tagged_json("tuple"@, seq!['['] + types_json(items@) + seq![']']),
    }
}

/// The members `"name":type` of the fields of an object function type, separated by commas
pub open spec fn type_members_json(f: Seq<(String, Type)>) -> Seq<char>
    decreases f,
{
    if f.len() == 0 {
        Seq::empty()
    } else {
        let last = json_quoted(f.last().0@) + seq![':'] + type_json(f.last().1);
        if f.len() == 1 {
            last
        } else {
            type_members_json(f.drop_last()) + seq![','] + last
        }
    }
}

/// The types of a function tuple type, separated by commas
pub open spec fn types_json(t: Seq<Type>) -> Seq<char>
    decreases t,
{
    if t.len() == 0 {
        Seq::empty()
    } else if t.len() == 1 {
        type_json(t[0])
    } else {
        types_json(t.drop_last()) + seq![','] + type_json(t.last())
    }
}

/// `"` + the JSON of `tag` + `,`
fn open_tag(tag: &str) -> (r: String)
    ensures
        r@ == seq!['['] + json_quoted(tag@) + seq![','],
{
    proof {
        reveal_strlit("[");
        reveal_strlit(",");
    }
    String::from_str("[").concat(json_quote(tag).as_str()).concat(",")
}

/// The pair `[tag, value]`
fn tagged(tag: &str, value: String) -> (r: String)
    ensures
        r@ == tagged_json(tag@, value@),
{
    proof {
        reveal_strlit("]");
    }
    open_tag(tag).concat(value.as_str()).concat("]")
}

/// `{` + members + `}`
fn braced(members: String) -> (r: String)
    ensures
        r@ == seq!['{'] + members@ + seq!['}'],
{
    proof {
        reveal_strlit("{");
        reveal_strlit("}");
    }
    String::from_str("{").concat(members.as_str()).concat("}")
}

/// `[` + items + `]`
fn bracketed(items: String) -> (r: String)
    ensures
        r@ == seq!['['] + items@ + seq![']'],
{
    proof {
        reveal_strlit("[");
        reveal_strlit("]");
    }
    String::from_str("[").concat(items.as_str()).concat("]")
}

/// `prefix` + `,` + `item`, or `item` alone when it is the first
fn comma_join(prefix: String, item: String, first: bool) -> (r: String)
    ensures
        r@ == if first {
            item@
        } else {
            prefix@ + seq![','] + item@
        },
{
    if first {
        item
    } else {
        proof {
            reveal_strlit(",");
        }
        prefix.concat(",").concat(item.as_str())
    }
}

/// `"name":` + the JSON of a type
fn member(name: &String, type_text: String) -> (r: String)
    ensures
        r@ == json_quoted(name@) + seq![':'] + type_text@,
{
    proof {
        reveal_strlit(":");
    }
    json_quote(name.as_str()).concat(":").concat(type_text.as_str())
}

impl AttributeType {
    /// The JSON of the type (see [`attribute_type_json`]), which is how it is displayed
    pub fn to_string(&self) -> (r: String)
        ensures
            r@ == attribute_type_json(*self),
        decreases self,
    {
        proof {
            reveal_strlit("string");
            reveal_strlit("number");
            reveal_strlit("bool");
            reveal_strlit("dynamic");
        }
        match self {
            AttributeType::String => json_quote("string"),
            AttributeType::Number => json_quote("number"),
            AttributeType::Bool => json_quote("bool"),
            AttributeType::Any => json_quote("dynamic"),
            AttributeType::List(e) => tagged("list", e.to_string()),
            AttributeType::SetOf(e) => tagged("set", e.to_string()),
            AttributeType::MapOf(e) => tagged("map", e.to_string()),
            AttributeType::Object(fields) => tagged("object", braced(field_members(fields))),
            AttributeType::Tuple(items) => tagged("tuple", bracketed(tuple_items(items))),
            AttributeType::AttributeSingle(a) => tagged("object", braced(attribute_members(a))),
            AttributeType::AttributeList(a) => tagged(
                "list",
                tagged("object", braced(attribute_members(a))),
            ),
            AttributeType::AttributeSet(a) => tagged(
                "set",
                tagged("object", braced(attribute_members(a))),
            ),
            AttributeType::AttributeMap(a) => tagged(
                "map",
                tagged("object", braced(attribute_members(a))),
            ),
        }
    }
}

/// The members `"name":type` of nested attributes, separated by commas
fn attribute_members(a: &Vec<(String, Attribute)>) -> (r: String)
    ensures
        r@ == attribute_members_json(a@),
    decreases a,
{
    let mut out = String::new();
    let n = a.len();
    for i in 0..n
        invariant
            n == a@.len(),
            out@ == attribute_members_json(a@.take(i as int)),
    {
        let ghost f = a@.take(i as int + 1);
        assert(f.drop_last() =~= a@.take(i as int));
        assert(f.last() == a@[i as int]);
        let (name, attr) = &a[i];
        let m = member(name, attr.attr_type.to_string());
        out = comma_join(out, m, i == 0);
    }
    assert(a@.take(n as int) =~= a@);
    out
}

impl Type {
    /// The JSON of the type (see [`type_json`]), which is how it is displayed
    pub fn to_string(&self) -> (r: String)
        ensures
            r@ == type_json(*self),
        decreases self,
    {
        proof {
            reveal_strlit("string");
            reveal_strlit("number");
            reveal_strlit("bool");
            reveal_strlit("dynamic");
        }
        match self {
            Type::String => json_quote("string"),
            Type::Number => json_quote("number"),
            Type::Bool => json_quote("bool"),
            Type::Any => json_quote("dynamic"),
            Type::List(e) => tagged("list", e.to_string()),
            Type::SetOf(e) => tagged("set", e.to_string()),
            Type::MapOf(e) => tagged("map", e.to_string()),
            Type::Object(fields) => tagged("object", braced(type_members(fields))),
            Type::Tuple(items) => tagged("tuple", bracketed(type_items(items))),
        }
    }
}

/// The members `"name":type` of the fields of an object type, separated by commas
fn field_members(fields: &Vec<(String, AttributeType)>) -> (r: String)
    ensures
        r@ == field_members_json(fields@),
    decreases fields,
{
    let mut out = String::new();
    let n = fields.len();
    for i in 0..n
        invariant
            n == fields@.len(),
            out@ == field_members_json(fields@.take(i as int)),
    {
        let ghost f = fields@.take(i as int + 1);
        assert(f.drop_last() =~= fields@.take(i as int));
        assert(f.last() == fields@[i as int]);
        let (name, t) = &fields[i];
        let m = member(name, t.to_string());
        out = comma_join(out, m, i == 0);
    }
    assert(fields@.take(n as int) =~= fields@);
    out
}

/// The types of a tuple, separated by commas
fn tuple_items(items: &Vec<AttributeType>) -> (r: String)
    ensures
        r@ == attribute_types_json(items@),
    decreases items,
{
    let mut out = String::new();
    let n = items.len();
    for i in 0..n
        invariant
            n == items@.len(),
            out@ == attribute_types_json(items@.take(i as int)),
    {
        let ghost f = items@.take(i as int + 1);
        assert(f.drop_last() =~= items@.take(i as int));
        assert(f.last() == items@[i as int]);
        if i == 0 {
            assert(f =~= seq![items@[0]]);
        }
        out = comma_join(out, items[i].to_string(), i == 0);
    }
    assert(items@.take(n as int) =~= items@);
    out
}

/// The members `"name":type` of the fields of an object function type, separated by commas
fn type_members(fields: &Vec<(String, Type)>) -> (r: String)
    ensures
        r@ == type_members_json(fields@),
    decreases fields,
{
    let mut out = String::new();
    let n = fields.len();
    for i in 0..n
        invariant
            n == fields@.len(),
            out@ == type_members_json(fields@.take(i as int)),
    {
        let ghost f = fields@.take(i as int + 1);
        assert(f.drop_last() =~= fields@.take(i as int));
        assert(f.last() == fields@[i as int]);
        let (name, t) = &fields[i];
        let m = member(name, t.to_string());
        out = comma_join(out, m, i == 0);
    }
    assert(fields@.take(n as int) =~= fields@);
    out
}

/// The types of a function tuple type, separated by commas
fn type_items(items: &Vec<Type>) -> (r: String)
    ensures
        r@ == types_json(items@),
    decreases items,
{
    let mut out = String::new();
    let n = items.len();
    for i in 0..n
        invariant
            n == items@.len(),
            out@ == types_json(items@.take(i as int)),
    {
        let ghost f = items@.take(i as int + 1);
        assert(f.drop_last() =~= items@.take(i as int));
        assert(f.last() == items@[i as int]);
        if i == 0 {
            assert(f =~= seq![items@[0]]);
        }
        out = comma_join(out, items[i].to_string(), i == 0);
    }
    assert(items@.take(n as int) =~= items@);
    out
}

/// An attribute as the protocol describes it
#[derive(Debug)]
pub struct ProtoAttribute {
    pub name: String,
    /// The JSON of the type, as bytes
    pub attr_type: Vec<u8>,
    pub nested_type: Option<ProtoObject>,
    pub description: String,
    pub required: bool,
    pub optional: bool,
    pub computed: bool,
    pub sensitive: bool,
    /// `0` for plain text, `1` for markdown
    pub description_kind: i32,
    pub deprecated: bool,
}

/// Nested attributes as the protocol describes them
#[derive(Debug)]
pub struct ProtoObject {
    pub attributes: Vec<ProtoAttribute>,
    /// `1` single, `2` list, `3` set, `4` map
    pub nesting: i32,
    pub min_items: i64,
    pub max_items: i64,
}

/// A nested block as the protocol describes it
#[derive(Debug)]
pub struct ProtoNestedBlock {
    pub block_name: String,
    pub block: Option<ProtoBlock>,
    /// `1` single, `2` list, `3` set, `4` map, `5` group
    pub nesting: i32,
    pub min_items: i64,
    pub max_items: i64,
}

/// A block as the protocol describes it
#[derive(Debug)]
pub struct ProtoBlock {
    pub version: i64,
    pub attributes: Vec<ProtoAttribute>,
    pub block_types: Vec<ProtoNestedBlock>,
    pub description: String,
    /// `0` for plain text, `1` for markdown
    pub description_kind: i32,
    pub deprecated: bool,
}

/// A schema as the protocol describes it
#[derive(Debug)]
pub struct ProtoSchema {
    pub version: i64,
    pub block: Option<ProtoBlock>,
}

/// A function parameter as the protocol describes it
#[derive(Debug)]
pub struct ProtoParameter {
    pub name: String,
    /// The JSON of the type, as bytes
    pub param_type: Vec<u8>,
    pub allow_null_value: bool,
    pub allow_unknown_values: bool,
    pub description: String,
    /// `0` for plain text, `1` for markdown
    pub description_kind: i32,
}

/// A function as the protocol describes it
#[derive(Debug)]
pub struct ProtoFunction {
    pub parameters: Vec<ProtoParameter>,
    pub variadic_parameter: Option<ProtoParameter>,
    /// The JSON of the return type, as bytes
    pub return_type: Vec<u8>,
    pub summary: String,
    pub description: String,
    /// `0` for plain text, `1` for markdown
    pub description_kind: i32,
    pub deprecation_message: String,
}

/// The number of a kind of description in the protocol
pub open spec fn kind_number(k: StringKind) -> i32 {
    match k {
        StringKind::Plain => 0,
        StringKind::Markdown => 1,
    }
}

/// `p` describes nested attributes `a` with the nesting `nesting` at most `max` times
pub open spec fn object_proto_ok(a: Seq<(String, Attribute)>, nesting: i32, max: i64, o: ProtoObject) -> bool
    decreases a, 1int,
{
    &&& o.nesting == nesting
    &&& o.min_items == 0
    &&& o.max_items == max
    &&& attributes_proto_ok(a, o.attributes@)
}

/// `p` is the protocol form of the attribute `a` named `name`: its type as JSON, its
/// constraint split in required, optional and computed, and its nested attributes
pub open spec fn attribute_proto_ok(name: Seq<char>, a: Attribute, p: ProtoAttribute) -> bool
    decreases a, 2int,
{
    &&& p.name@ == name
    &&& p.attr_type@ == vstd::utf8::encode_utf8(attribute_type_json(a.attr_type))
    &&& p.description@ == a.description.content@
    &&& p.required == (a.constraint is Required)
    &&& p.optional == (a.constraint is OptionalComputed || a.constraint is Optional)
    &&& p.computed == (a.constraint is OptionalComputed || a.constraint is Computed)
    &&& p.sensitive == a.sensitive
    &&& p.description_kind == kind_number(a.description.kind)
    &&& p.deprecated == a.deprecated
    &&& match a.attr_type {
        AttributeType::AttributeSingle(x) => p.nested_type matches Some(o) && object_proto_ok(
            x@,
            1,
            1,
            o,
        ),
        AttributeType::AttributeList(x) => p.nested_type matches Some(o) && object_proto_ok(
            x@,
            2,
            i64::MAX,
            o,
        ),
        AttributeType::AttributeSet(x) => p.nested_type matches Some(o) && object_proto_ok(
            x@,
            3,
            i64::MAX,
            o,
        ),
        AttributeType::AttributeMap(x) => p.nested_type matches Some(o) && object_proto_ok(
            x@,
            4,
            i64::MAX,
            o,
        ),
        _ => p.nested_type is None,
    }
}

/// `p` is the protocol form of the attributes `a`, one for one and in order
pub open spec fn attributes_proto_ok(a: Seq<(String, Attribute)>, p: Seq<ProtoAttribute>) -> bool
    decreases a, 0int,
{
    &&& a.len() == p.len()
    &&& a.len() > 0 ==> attributes_proto_ok(a.drop_last(), p.drop_last()) && attribute_proto_ok(
        a.last().0@,
        a.last().1,
        p.last(),
    )
}

/// `p` is the protocol form of the block `b`
pub open spec fn block_proto_ok(b: Block, p: ProtoBlock) -> bool
    decreases b, 2int,
{
    &&& p.version == b.version
    &&& attributes_proto_ok(b.attributes@, p.attributes@)
    &&& nested_blocks_proto_ok(b.blocks@, p.block_types@)
    &&& p.description@ == b.description.content@
    &&& p.description_kind == kind_number(b.description.kind)
    &&& p.deprecated == b.deprecated
}

/// `p` is the protocol form of the nested block `nb` named `name`: its nesting and how many
/// times it can appear (an optional block is a list of at most one block)
pub open spec fn nested_block_proto_ok(name: Seq<char>, nb: NestedBlock, p: ProtoNestedBlock) -> bool
    decreases nb, 1int,
{
    &&& p.block_name@ == name
    &&& match nb {
        NestedBlock::Single(b) => p.nesting == 1 && p.min_items == 1 && p.max_items == 1
            && (p.block matches Some(pb) && block_proto_ok(b, pb)),
        NestedBlock::List(b) => p.nesting == 2 && p.min_items == 0 && p.max_items == i64::MAX
            && (p.block matches Some(pb) && block_proto_ok(b, pb)),
        NestedBlock::SetOf(b) => p.nesting == 3 && p.min_items == 0 && p.max_items == i64::MAX
            && (p.block matches Some(pb) && block_proto_ok(b, pb)),
        NestedBlock::MapOf(b) => p.nesting == 4 && p.min_items == 0 && p.max_items == 0
            && (p.block matches Some(pb) && block_proto_ok(b, pb)),
        NestedBlock::Group(b) => p.nesting == 5 && p.min_items == 0 && p.max_items == 0
            && (p.block matches Some(pb) && block_proto_ok(b, pb)),
        NestedBlock::Optional(b) => p.nesting == 2 && p.min_items == 0 && p.max_items == 1
            && (p.block matches Some(pb) && block_proto_ok(b, pb)),
    }
}

/// `p` is the protocol form of the nested blocks `bs`, one for one and in order
pub open spec fn nested_blocks_proto_ok(bs: Seq<(String, NestedBlock)>, p: Seq<ProtoNestedBlock>) -> bool
    decreases bs, 0int,
{
    &&& bs.len() == p.len()
    &&& bs.len() > 0 ==> nested_blocks_proto_ok(bs.drop_last(), p.drop_last())
        && nested_block_proto_ok(bs.last().0@, bs.last().1, p.last())
}

/// The bytes of a text
fn text_bytes(s: &String) -> (r: Vec<u8>)
    ensures
        r@ == vstd::utf8::encode_utf8(s@),
{
    vstd::slice::slice_to_vec(s.as_str().as_bytes())
}

/// The number of a kind of description in the protocol
fn kind_of(k: StringKind) -> (r: i32)
    ensures
        r == kind_number(k),
{
    match k {
        StringKind::Plain => 0,
        StringKind::Markdown => 1,
    }
}

/// Nested attributes in the protocol form
fn cvt_object(a: &Vec<(String, Attribute)>, nesting: i32, max: i64) -> (r: ProtoObject)
    ensures
        object_proto_ok(a@, nesting, max, r),
    decreases a, 1int,
{
    ProtoObject { attributes: cvt_attributes_tf6(a), nesting, min_items: 0, max_items: max }
}

/// An attribute in the protocol form
fn cvt_attribute(name: &String, a: &Attribute) -> (r: ProtoAttribute)
    ensures
        attribute_proto_ok(name@, *a, r),
    decreases a, 2int,
{
    let nested_type = match &a.attr_type {
        AttributeType::AttributeSingle(x) => Some(cvt_object(x, 1, 1)),
        AttributeType::AttributeList(x) => Some(cvt_object(x, 2, i64::MAX)),
        AttributeType::AttributeSet(x) => Some(cvt_object(x, 3, i64::MAX)),
        AttributeType::AttributeMap(x) => Some(cvt_object(x, 4, i64::MAX)),
        _ => None,
    };
    ProtoAttribute {
        name: name.clone(),
        attr_type: text_bytes(&a.attr_type.to_string()),
        nested_type,
        description: a.description.content.clone(),
        required: matches!(a.constraint, AttributeConstraint::Required),
        optional: matches!(a.constraint, AttributeConstraint::OptionalComputed)
            || matches!(a.constraint, AttributeConstraint::Optional),
        computed: matches!(a.constraint, AttributeConstraint::OptionalComputed)
            || matches!(a.constraint, AttributeConstraint::Computed),
        sensitive: a.sensitive,
        description_kind: kind_of(a.description.kind),
        deprecated: a.deprecated,
    }
}

/// The attributes of a block (or nested attributes) in the protocol form, in order
pub fn cvt_attributes_tf6(attrs: &Vec<(String, Attribute)>) -> (r: Vec<ProtoAttribute>)
    ensures
        attributes_proto_ok(attrs@, r@),
    decreases attrs, 0int,
{
    let mut out: Vec<ProtoAttribute> = Vec::new();
    let n = attrs.len();
    assert(attrs@.take(0) =~= Seq::<(String, Attribute)>::empty());
    for i in 0..n
        invariant
            n == attrs@.len(),
            attributes_proto_ok(attrs@.take(i as int), out@),
    {
        let ghost before = out@;
        let (name, a) = &attrs[i];
        out.push(cvt_attribute(name, a));
        assert(attrs@.take(i as int + 1).drop_last() =~= attrs@.take(i as int));
        assert(attrs@.take(i as int + 1).last() == attrs@[i as int]);
        assert(out@.drop_last() =~= before);
    }
    assert(attrs@.take(n as int) =~= attrs@);
    out
}

impl Block {
    /// The block in the protocol form
    pub fn to_proto(&self) -> (r: ProtoBlock)
        ensures
            block_proto_ok(*self, r),
        decreases self, 2int,
    {
        ProtoBlock {
            version: self.version,
            attributes: cvt_attributes_tf6(&self.attributes),
            block_types: cvt_nested_blocks_tf6(&self.blocks),
            description: self.description.content.clone(),
            description_kind: kind_of(self.description.kind),
            deprecated: self.deprecated,
        }
    }
}

/// A nested block in the protocol form
fn cvt_nested_block(name: &String, nb: &NestedBlock) -> (r: ProtoNestedBlock)
    ensures
        nested_block_proto_ok(name@, *nb, r),
    decreases nb, 1int,
{
    let (nesting, min_items, max_items, block): (i32, i64, i64, &Block) = match nb {
        NestedBlock::Single(b) => (1, 1, 1, b),
        NestedBlock::List(b) => (2, 0, i64::MAX, b),
        NestedBlock::SetOf(b) => (3, 0, i64::MAX, b),
        NestedBlock::MapOf(b) => (4, 0, 0, b),
        NestedBlock::Group(b) => (5, 0, 0, b),
        NestedBlock::Optional(b) => (2, 0, 1, b),
    };
    ProtoNestedBlock {
        block_name: name.clone(),
        block: Some(block.to_proto()),
        nesting,
        min_items,
        max_items,
    }
}

/// The nested blocks of a block in the protocol form, in order
pub fn cvt_nested_blocks_tf6(blocks: &Vec<(String, NestedBlock)>) -> (r: Vec<ProtoNestedBlock>)
    ensures
        nested_blocks_proto_ok(blocks@, r@),
    decreases blocks, 0int,
{
    let mut out: Vec<ProtoNestedBlock> = Vec::new();
    let n = blocks.len();
    assert(blocks@.take(0) =~= Seq::<(String, NestedBlock)>::empty());
    for i in 0..n
        invariant
            n == blocks@.len(),
            nested_blocks_proto_ok(blocks@.take(i as int), out@),
    {
        let ghost before = out@;
        let (name, nb) = &blocks[i];
        out.push(cvt_nested_block(name, nb));
        assert(blocks@.take(i as int + 1).drop_last() =~= blocks@.take(i as int));
        assert(blocks@.take(i as int + 1).last() == blocks@[i as int]);
        assert(out@.drop_last() =~= before);
    }
    assert(blocks@.take(n as int) =~= blocks@);
    out
}

impl Schema {
    /// The schema in the protocol form
    pub fn to_proto(&self) -> (r: ProtoSchema)
        ensures
            r.version == self.version,
            r.block matches Some(b) && block_proto_ok(self.block, b),
    {
        ProtoSchema { version: self.version, block: Some(self.block.to_proto()) }
    }
}

/// `p` is the protocol form of the function parameter `a`
pub open spec fn parameter_proto_ok(a: Parameter, p: ProtoParameter) -> bool {
    &&& p.name@ == a.name@
    &&& p.param_type@ == vstd::utf8::encode_utf8(type_json(a.param_type))
    &&& p.allow_null_value == a.allow_null
    &&& p.allow_unknown_values == a.allow_unknown
    &&& p.description@ == a.description.content@
    &&& p.description_kind == kind_number(a.description.kind)
}

/// The deprecation message of a function: none when it is not deprecated, `deprecated` when
/// the message given is empty
pub open spec fn deprecation_text(d: Option<String>) -> Seq<char> {
    match d {
        Some(m) => if m@.len() == 0 {
            "deprecated"@
        } else {
            m@
        },
        None => Seq::empty(),
    }
}

impl Parameter {
    /// The parameter in the protocol form
    pub fn to_proto(&self) -> (r: ProtoParameter)
        ensures
            parameter_proto_ok(*self, r),
    {
        ProtoParameter {
            name: self.name.clone(),
            param_type: text_bytes(&self.param_type.to_string()),
            allow_null_value: self.allow_null,
            allow_unknown_values: self.allow_unknown,
            description: self.description.content.clone(),
            description_kind: kind_of(self.description.kind),
        }
    }
}

impl FunctionSchema {
    /// The function in the protocol form
    pub fn to_proto(&self) -> (r: ProtoFunction)
        ensures
            r.parameters@.len() == self.parameters@.len(),
            forall|i: int|
                0 <= i < self.parameters@.len() ==> parameter_proto_ok(
                    #[trigger] self.parameters@[i],
                    r.parameters@[i],
                ),
            match self.variadic {
                Some(v) => r.variadic_parameter matches Some(q) && parameter_proto_ok(v, q),
                None => r.variadic_parameter is None,
            },
            r.return_type@ == vstd::utf8::encode_utf8(type_json(self.return_type)),
            r.summary@ == self.summary@,
            r.description@ == self.description.content@,
            r.description_kind == kind_number(self.description.kind),
            r.deprecation_message@ == deprecation_text(self.deprecated),
    {
        let mut parameters: Vec<ProtoParameter> = Vec::new();
        let n = self.parameters.len();
        for i in 0..n
            invariant
                n == self.parameters@.len(),
                parameters@.len() == i,
                forall|j: int|
                    0 <= j < i ==> parameter_proto_ok(
                        #[trigger] self.parameters@[j],
                        parameters@[j],
                    ),
        {
            parameters.push(self.parameters[i].to_proto());
        }
        let variadic_parameter = match &self.variadic {
            Some(v) => Some(v.to_proto()),
            None => None,
        };
        let deprecation_message = match &self.deprecated {
            Some(m) => if m.as_str().is_empty() {
                proof {
                    reveal_strlit("deprecated");
                }
                String::from_str("deprecated")
            } else {
                m.clone()
            },
            None => String::new(),
        };
        ProtoFunction {
            parameters,
            variadic_parameter,
            return_type: text_bytes(&self.return_type.to_string()),
            summary: self.summary.clone(),
            description: self.description.content.clone(),
            description_kind: kind_of(self.description.kind),
            deprecation_message,
        }
    }
}

/// The entry `e` is the attribute `name` of the type `t`, described by the plain text `d`,
/// with the constraint `c`, sensitive or not, and not deprecated
pub open spec fn plain_attribute(
    e: (String, Attribute),
    name: Seq<char>,
    t: AttributeType,
    d: Seq<char>,
    c: AttributeConstraint,
    sensitive: bool,
) -> bool {
    &&& e.0@ == name
    &&& e.1.attr_type == t
    &&& e.1.description.kind is Plain
    &&& e.1.description.content@ == d
    &&& e.1.constraint == c
    &&& e.1.sensitive == sensitive
    &&& !e.1.deprecated
}

/// The block `b` is of version 1, described by the plain text `d`, and not deprecated
pub open spec fn plain_block(b: Block, d: Seq<char>) -> bool {
    &&& b.version == 1
    &&& b.description.kind is Plain
    &&& b.description.content@ == d
    &&& !b.deprecated
}

/// The entry named `name` of the attribute of the type `t`, described by the plain text
/// `description`, with the constraint `constraint`, sensitive or not, and not deprecated
pub fn plain_entry(
    name: &str,
    t: AttributeType,
    description: &str,
    constraint: AttributeConstraint,
    sensitive: bool,
) -> (r: (String, Attribute))
    ensures
        plain_attribute(r, name@, t, description@, constraint, sensitive),
{
    (
        name.to_owned(),
        Attribute {
            attr_type: t,
            description: Description::plain(description),
            constraint,
            sensitive,
            deprecated: false,
        },
    )
}

/// A block of version 1 with these attributes and nested blocks, described by the plain text
/// `description`, and not deprecated
pub fn plain_block_of(
    attributes: Vec<(String, Attribute)>,
    blocks: Vec<(String, NestedBlock)>,
    description: &str,
) -> (r: Block)
    ensures
        plain_block(r, description@),
        r.attributes == attributes,
        r.blocks == blocks,
{
    Block { version: 1, attributes, blocks, description: Description::plain(description), deprecated: false }
}

} // verus!
