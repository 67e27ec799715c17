//! States of the command resources and data sources.

use vstd::prelude::*;

use crate::named_map::{str_value_clone, str_value_eq, str_value_view, NameSet, NamedMap};
use crate::schema::{
    plain_attribute, plain_block, plain_block_of, plain_entry, Attribute, AttributeConstraint,
    AttributeType, Block, NestedBlock, Schema,
};
use crate::value::Value;

verus! {

/// A map of string values, by name
pub type StringMap = NamedMap<Value<String>>;

/// The content of a string map: each name with the characters of its value
pub open spec fn string_map_view(m: StringMap) -> Map<Seq<char>, Value<Seq<char>>> {
    Map::new(|k: Seq<char>| m.has_key(k), |k: Seq<char>| str_value_view(m.get_spec(k)))
}

/// The content of an optional string map
pub open spec fn value_map_view(m: Value<StringMap>) -> Value<Map<Seq<char>, Value<Seq<char>>>> {
    match m {
        Value::Value(x) => Value::Value(string_map_view(x)),
        Value::Null => Value::Null,
        Value::Unknown => Value::Unknown,
    }
}

/// The maps of a value are well formed
pub open spec fn value_map_wf(m: Value<StringMap>) -> bool {
    m matches Value::Value(x) ==> x.wf()
}

/// The sets of a value are well formed
pub open spec fn value_set_wf(s: Value<NameSet>) -> bool {
    s matches Value::Value(x) ==> x.wf()
}

/// Command to execute, with its working directory and environment
#[derive(Debug)]
pub struct StateCmd {
    pub cmd: Value<String>,
    pub dir: Value<String>,
    pub env: Value<StringMap>,
}

/// Command to execute when some inputs change
#[derive(Debug)]
pub struct StateUpdate {
    pub cmd: StateCmd,
    pub triggers: Value<NameSet>,
    pub reloads: Value<NameSet>,
}

/// Command to execute to read an output
#[derive(Debug)]
pub struct StateRead {
    pub cmd: StateCmd,
    pub faillible: Value<bool>,
    pub strip_trailing_newline: Value<bool>,
}

/// Command to execute to create a resource
pub type StateCreate = StateCmd;

/// Command to execute to destroy a resource
pub type StateDestroy = StateCmd;

/// Content of a command block
pub struct CmdView {
    pub cmd: Value<Seq<char>>,
    pub dir: Value<Seq<char>>,
    pub env: Value<Map<Seq<char>, Value<Seq<char>>>>,
}

/// Content of a read block
pub struct ReadView {
    pub cmd: CmdView,
    pub faillible: Value<bool>,
    pub strip_trailing_newline: Value<bool>,
}

impl StateCmd {
    pub open spec fn view_cmd(&self) -> CmdView {
        CmdView {
            cmd: str_value_view(self.cmd),
            dir: str_value_view(self.dir),
            env: value_map_view(self.env),
        }
    }

    pub open spec fn wf(&self) -> bool {
        value_map_wf(self.env)
    }

    /// The command, or `""` when it is null or unknown
    pub fn cmd(&self) -> (r: &str)
        ensures
            r@ == crate::value::value_str_view(self.cmd),
    {
        self.cmd.as_str()
    }

    /// The working directory, or `""` when it is null or unknown
    pub fn dir(&self) -> (r: &str)
        ensures
            r@ == crate::value::value_str_view(self.dir),
    {
        self.dir.as_str()
    }

    /// The environment of the command
    pub fn env(&self) -> (r: &Value<StringMap>)
        ensures
            *r == self.env,
    {
        &self.env
    }
}

impl StateRead {
    pub open spec fn view_read(&self) -> ReadView {
        ReadView {
            cmd: self.cmd.view_cmd(),
            faillible: self.faillible,
            strip_trailing_newline: self.strip_trailing_newline,
        }
    }

    pub open spec fn wf(&self) -> bool {
        self.cmd.wf()
    }

    /// Whether a trailing newline is removed from the output (yes unless set to `false`)
    pub fn strip_trailing_newline(&self) -> (r: bool)
        ensures
            r == (match self.strip_trailing_newline {
                Value::Value(b) => b,
                _ => true,
            }),
    {
        self.strip_trailing_newline.unwrap_or(true)
    }

    /// Whether a failure of the command is tolerated (no unless set to `true`)
    pub fn faillible(&self) -> (r: bool)
        ensures
            r == (match self.faillible {
                Value::Value(b) => b,
                _ => false,
            }),
    {
        self.faillible.unwrap_or(false)
    }
}

impl StateUpdate {
    pub open spec fn wf(&self) -> bool {
        self.cmd.wf() && value_set_wf(self.triggers) && value_set_wf(self.reloads)
    }
}

/// Copy of a string map
pub fn string_map_clone(m: &StringMap) -> (r: StringMap)
    ensures
        r.entries@ == m.entries@,
{
    let mut entries: Vec<(String, Value<String>)> = Vec::new();
    let n = m.entries.len();
    for i in 0..n
        invariant
            n == m.entries@.len(),
            entries@ == m.entries@.take(i as int),
    {
        let (k, v) = &m.entries[i];
        entries.push((k.clone(), str_value_clone(v)));
        assert(entries@ =~= m.entries@.take(i as int + 1));
    }
    assert(m.entries@.take(n as int) =~= m.entries@);
    NamedMap { entries }
}

/// Whether every entry of `a` is in `b` with the same value
fn string_map_included(a: &StringMap, b: &StringMap) -> (r: bool)
    requires
        a.wf(),
        b.wf(),
    ensures
        r == (forall|k: Seq<char>|
            a.has_key(k) ==> b.has_key(k) && str_value_view(b.get_spec(k)) == str_value_view(
                a.get_spec(k),
            )),
{
    let n = a.entries.len();
    for i in 0..n
        invariant
            n == a.size(),
            a.wf(),
            b.wf(),
            forall|j: int|
                0 <= j < i ==> b.has_key(#[trigger] a.key_at(j)) && str_value_view(
                    b.get_spec(a.key_at(j)),
                ) == str_value_view(a.value_at(j)),
    {
        let (k, v) = &a.entries[i];
        match b.get(k.as_str()) {
            Some(w) => {
                if !str_value_eq(v, w) {
                    proof {
                        a.lemma_index_of(i as int);
                    }
                    return false;
                }
            },
            None => {
                proof {
                    a.lemma_index_of(i as int);
                }
                return false;
            },
        }
    }
    assert forall|k: Seq<char>| a.has_key(k) implies b.has_key(k) && str_value_view(
        b.get_spec(k),
    ) == str_value_view(a.get_spec(k)) by {
        let j = a.index_of(k);
        a.lemma_index_of(j);
        assert(a.key_at(j) == k);
    }
    true
}

/// Whether two string maps have the same names and values (whatever the order of the entries)
pub fn string_map_eq(a: &StringMap, b: &StringMap) -> (r: bool)
    requires
        a.wf(),
        b.wf(),
    ensures
        r == (string_map_view(*a) == string_map_view(*b)),
{
    let r = string_map_included(a, b) && string_map_included(b, a);
    if r {
        assert(string_map_view(*a) =~= string_map_view(*b));
    } else {
        proof {
            if string_map_view(*a) == string_map_view(*b) {
            assert forall|k: Seq<char>| a.has_key(k) implies b.has_key(k) && str_value_view(
                b.get_spec(k),
            ) == str_value_view(a.get_spec(k)) by {
                assert(string_map_view(*a).dom().contains(k));
                assert(string_map_view(*a)[k] == string_map_view(*b)[k]);
            }
            assert forall|k: Seq<char>| b.has_key(k) implies a.has_key(k) && str_value_view(
                a.get_spec(k),
            ) == str_value_view(b.get_spec(k)) by {
                assert(string_map_view(*b).dom().contains(k));
                assert(string_map_view(*a)[k] == string_map_view(*b)[k]);
            }
            }
        }
    }
    r
}

/// Whether two optional string maps have the same content
pub fn value_map_eq(a: &Value<StringMap>, b: &Value<StringMap>) -> (r: bool)
    requires
        value_map_wf(*a),
        value_map_wf(*b),
    ensures
        r == (value_map_view(*a) == value_map_view(*b)),
{
    match (a, b) {
        (Value::Value(x), Value::Value(y)) => string_map_eq(x, y),
        (Value::Null, Value::Null) => true,
        (Value::Unknown, Value::Unknown) => true,
        _ => false,
    }
}

/// Whether two command blocks are the same
pub fn cmd_eq(a: &StateCmd, b: &StateCmd) -> (r: bool)
    requires
        a.wf(),
        b.wf(),
    ensures
        r == (a.view_cmd() == b.view_cmd()),
{
    str_value_eq(&a.cmd, &b.cmd) && str_value_eq(&a.dir, &b.dir) && value_map_eq(&a.env, &b.env)
}

fn bool_value_eq(a: &Value<bool>, b: &Value<bool>) -> (r: bool)
    ensures
        r == (*a == *b),
{
    match (a, b) {
        (Value::Value(x), Value::Value(y)) => *x == *y,
        (Value::Null, Value::Null) => true,
        (Value::Unknown, Value::Unknown) => true,
        _ => false,
    }
}

/// Whether two read blocks are the same
pub fn read_eq(a: &StateRead, b: &StateRead) -> (r: bool)
    requires
        a.wf(),
        b.wf(),
    ensures
        r == (a.view_read() == b.view_read()),
{
    cmd_eq(&a.cmd, &b.cmd) && bool_value_eq(&a.faillible, &b.faillible) && bool_value_eq(
        &a.strip_trailing_newline,
        &b.strip_trailing_newline,
    )
}

} // verus!

verus! {

/// The state of a resource managed with commands
#[derive(Debug)]
pub struct ResourceState<C> {
    pub id: Value<String>,
    pub inputs: Value<StringMap>,
    pub state: Value<StringMap>,
    pub read: Value<NamedMap<Value<StateRead>>>,
    pub create: Value<StateCreate>,
    pub destroy: Value<StateDestroy>,
    pub update: Value<Vec<Value<StateUpdate>>>,
    pub connect: Value<C>,
    pub command_concurrency: Value<i64>,
}

/// The state of a data source read with commands
#[derive(Debug)]
pub struct DataSourceState<C> {
    pub inputs: Value<StringMap>,
    pub outputs: Value<StringMap>,
    pub read: Value<NamedMap<Value<StateRead>>>,
    pub connect: Value<C>,
    pub command_concurrency: Value<i64>,
}

/// The read blocks of a map are well formed, and the map too
pub open spec fn reads_wf(r: Value<NamedMap<Value<StateRead>>>) -> bool {
    r matches Value::Value(m) ==> m.wf() && forall|i: int|
        0 <= i < m.size() ==> (#[trigger] m.value_at(i) matches Value::Value(x) ==> x.wf())
}

/// The update blocks are well formed
pub open spec fn updates_wf(u: Value<Vec<Value<StateUpdate>>>) -> bool {
    u matches Value::Value(v) ==> forall|i: int|
        0 <= i < v@.len() ==> (#[trigger] v@[i] matches Value::Value(x) ==> x.wf())
}

impl<C> ResourceState<C> {
    /// All the maps and sets of the state are well formed
    pub open spec fn wf(&self) -> bool {
        &&& value_map_wf(self.inputs)
        &&& value_map_wf(self.state)
        &&& reads_wf(self.read)
        &&& updates_wf(self.update)
        &&& (self.create matches Value::Value(c) ==> c.wf())
        &&& (self.destroy matches Value::Value(c) ==> c.wf())
    }
}

impl<C> DataSourceState<C> {
    /// All the maps of the state are well formed
    pub open spec fn wf(&self) -> bool {
        &&& value_map_wf(self.inputs)
        &&& value_map_wf(self.outputs)
        &&& reads_wf(self.read)
    }
}

} // verus!

verus! {

/// Content of an optional read block
pub open spec fn read_value_view(v: Value<StateRead>) -> Value<ReadView> {
    match v {
        Value::Value(r) => Value::Value(r.view_read()),
        Value::Null => Value::Null,
        Value::Unknown => Value::Unknown,
    }
}

/// Whether two optional read blocks are the same
pub fn read_value_eq(a: &Value<StateRead>, b: &Value<StateRead>) -> (r: bool)
    requires
        a matches Value::Value(x) ==> x.wf(),
        b matches Value::Value(x) ==> x.wf(),
    ensures
        r == (read_value_view(*a) == read_value_view(*b)),
{
    match (a, b) {
        (Value::Value(x), Value::Value(y)) => read_eq(x, y),
        (Value::Null, Value::Null) => true,
        (Value::Unknown, Value::Unknown) => true,
        _ => false,
    }
}

/// The names of the read blocks (none when they are null or unknown)
pub open spec fn read_names(read: Value<NamedMap<Value<StateRead>>>) -> Seq<Seq<char>> {
    match read {
        Value::Value(m) => m.entries@.map_values(|e: (String, Value<StateRead>)| e.0@),
        _ => Seq::empty(),
    }
}

/// A map that gives each name of `names`, in order, an unknown value
pub open spec fn all_unknown(m: StringMap, names: Seq<Seq<char>>) -> bool {
    &&& m.size() == names.len()
    &&& forall|i: int| 0 <= i < names.len() ==> #[trigger] m.key_at(i) == names[i]
    &&& forall|i: int| 0 <= i < names.len() ==> #[trigger] m.value_at(i) is Unknown
}

/// A map with an unknown value for each read block, in the order of the blocks
pub fn unknown_outputs(read: &Value<NamedMap<Value<StateRead>>>) -> (r: StringMap)
    requires
        reads_wf(*read),
    ensures
        r.wf(),
        all_unknown(r, read_names(*read)),
{
    let mut out: StringMap = NamedMap::new();
    match read {
        Value::Value(m) => {
            let n = m.entries.len();
            for i in 0..n
                invariant
                    n == m.size(),
                    m.wf(),
                    out.wf(),
                    all_unknown(out, read_names(*read).take(i as int)),
                    read_names(*read) == m.entries@.map_values(|e: (String, Value<StateRead>)| e.0@),
            {
                let k = m.entries[i].0.clone();
                proof {
                    if out.has_key(k@) {
                        let j = choose|j: int| 0 <= j < out.size() && #[trigger] out.entries@[j].0@ == k@;
                        assert(out.key_at(j) == read_names(*read)[j]);
                        assert(m.key_at(j) == m.key_at(i as int));
                    }
                }
                let ghost before = out;
                let ghost kv = k@;
                assert(kv == m.key_at(i as int));
                assert(read_names(*read)[i as int] == kv);
                out.push_new(k, Value::Unknown);
                assert(read_names(*read).take(i as int + 1) =~= read_names(*read).take(i as int).push(m.key_at(i as int)));
                assert forall|j: int| 0 <= j < i + 1 implies #[trigger] out.key_at(j) == read_names(*read).take(i as int + 1)[j] && out.value_at(j) is Unknown by {
                    if j < i {
                        assert(out.entries@[j] == before.entries@[j]);
                        assert(before.key_at(j) == read_names(*read).take(i as int)[j]);
                        assert(before.value_at(j) is Unknown);
                        assert(out.key_at(j) == before.key_at(j));
                        assert(out.value_at(j) == before.value_at(j));
                    } else {
                        assert(out.entries@[j].0@ == kv);
                        assert(out.entries@[j].1 is Unknown);
                        assert(out.key_at(j) == kv);
                    }
                }
                assert forall|j: int| 0 <= j < i + 1 implies #[trigger] out.value_at(j) is Unknown by {
                    assert(out.key_at(j) == read_names(*read).take(i as int + 1)[j]);
                }
            }
            assert(read_names(*read).take(n as int) =~= read_names(*read));
        },
        _ => {
            assert(read_names(*read) =~= Seq::<Seq<char>>::empty());
        },
    }
    out
}

/// What normalizing a state does: a null id becomes unknown, null inputs become an empty
/// map, and unknown outputs become an unknown value for each read block; the rest is kept
pub open spec fn state_normalized<C>(before: ResourceState<C>, after: ResourceState<C>) -> bool {
    &&& after.id == if before.id is Null {
        Value::<String>::Unknown
    } else {
        before.id
    }
    &&& before.inputs is Null ==> (after.inputs matches Value::Value(m) && m.size() == 0)
    &&& !(before.inputs is Null) ==> after.inputs == before.inputs
    &&& before.state is Unknown ==> (after.state matches Value::Value(m) && all_unknown(
        m,
        read_names(before.read),
    ))
    &&& !(before.state is Unknown) ==> after.state == before.state
    &&& after.read == before.read
    &&& after.create == before.create
    &&& after.destroy == before.destroy
    &&& after.update == before.update
    &&& after.connect == before.connect
    &&& after.command_concurrency == before.command_concurrency
}

/// Normalizing a normalized state changes nothing
pub proof fn law_state_normalize_idempotent<C>(a: ResourceState<C>, b: ResourceState<C>, c: ResourceState<C>)
    requires
        state_normalized(a, b),
        state_normalized(b, c),
    ensures
        c == b,
{
}

impl<C> ResourceState<C> {
    /// Fill what the practitioner left out: a null id becomes unknown, null inputs become an
    /// empty map, and unknown outputs become an unknown value for each read block
    pub fn normalize(&mut self)
        requires
            old(self).wf(),
        ensures
            final(self).wf(),
            state_normalized(*old(self), *final(self)),
    {
        if self.id.is_null() {
            self.id = Value::Unknown;
        }
        if self.inputs.is_null() {
            self.inputs = Value::Value(NamedMap::new());
        }
        if self.state.is_unknown() {
            self.state = Value::Value(unknown_outputs(&self.read));
        }
    }
}

/// The attributes `cmd`, `dir` and `env` of a command block, from `start` in `a`
pub open spec fn cmd_attributes(a: Seq<(String, Attribute)>, start: int) -> bool {
    &&& plain_attribute(a[start], "cmd"@, AttributeType::String, "Command to execute when reading the attribute"@, AttributeConstraint::Required, false)
    &&& plain_attribute(a[start + 1], "dir"@, AttributeType::String, "Directory where the command will be executed"@, AttributeConstraint::Optional, false)
    &&& plain_attribute(a[start + 2], "env"@, AttributeType::MapOf(Box::new(AttributeType::String)), "Environment used to execute the command"@, AttributeConstraint::Optional, false)
}

/// Append the attributes `cmd`, `dir` and `env` of a command block
fn push_cmd_attributes(a: &mut Vec<(String, Attribute)>)
    ensures
        final(a)@.len() == old(a)@.len() + 3,
        forall|i: int| 0 <= i < old(a)@.len() ==> final(a)@[i] == old(a)@[i],
        cmd_attributes(final(a)@, old(a)@.len() as int),
{
    a.push(plain_entry("cmd", AttributeType::String, "Command to execute when reading the attribute", AttributeConstraint::Required, false));
    a.push(plain_entry("dir", AttributeType::String, "Directory where the command will be executed", AttributeConstraint::Optional, false));
    a.push(plain_entry("env", AttributeType::MapOf(Box::new(AttributeType::String)), "Environment used to execute the command", AttributeConstraint::Optional, false));
}

/// The nested block `read`: a map of command blocks, each with `faillible` and
/// `strip_trailing_newline`
pub open spec fn read_block(e: (String, NestedBlock)) -> bool {
    &&& e.0@ == "read"@
    &&& e.1 matches NestedBlock::MapOf(b)
    &&& plain_block(b, "Command to execute to get the value of the output"@)
    &&& b.attributes@.len() == 5
    &&& cmd_attributes(b.attributes@, 0)
    &&& plain_attribute(b.attributes@[3], "faillible"@, AttributeType::Bool, "Whether a command should be a hard error"@, AttributeConstraint::Optional, false)
    &&& plain_attribute(b.attributes@[4], "strip_trailing_newline"@, AttributeType::Bool, "When enabled, remove the trailing newline if present"@, AttributeConstraint::Optional, false)
    &&& b.blocks@.len() == 0
}

/// The nested block `read`
fn read_block_entry() -> (r: (String, NestedBlock))
    ensures
        read_block(r),
{
    let mut a: Vec<(String, Attribute)> = Vec::new();
    push_cmd_attributes(&mut a);
    a.push(plain_entry("faillible", AttributeType::Bool, "Whether a command should be a hard error", AttributeConstraint::Optional, false));
    a.push(plain_entry("strip_trailing_newline", AttributeType::Bool, "When enabled, remove the trailing newline if present", AttributeConstraint::Optional, false));
    let b = plain_block_of(a, Vec::new(), "Command to execute to get the value of the output");
    ("read".to_owned(), NestedBlock::MapOf(b))
}

/// The optional command block `name` described by `d`
pub open spec fn cmd_block(e: (String, NestedBlock), name: Seq<char>, d: Seq<char>) -> bool {
    &&& e.0@ == name
    &&& e.1 matches NestedBlock::Optional(b)
    &&& plain_block(b, d)
    &&& b.attributes@.len() == 3
    &&& cmd_attributes(b.attributes@, 0)
    &&& b.blocks@.len() == 0
}

/// An optional command block
fn cmd_block_entry(name: &str, description: &str) -> (r: (String, NestedBlock))
    ensures
        cmd_block(r, name@, description@),
{
    let mut a: Vec<(String, Attribute)> = Vec::new();
    push_cmd_attributes(&mut a);
    let b = plain_block_of(a, Vec::new(), description);
    (name.to_owned(), NestedBlock::Optional(b))
}

/// The nested block `update`: a set of command blocks, each with `triggers` and `reloads`
pub open spec fn update_block(e: (String, NestedBlock)) -> bool {
    &&& e.0@ == "update"@
    &&& e.1 matches NestedBlock::SetOf(b)
    &&& plain_block(b, "Command to execute when an input changes"@)
    &&& b.attributes@.len() == 5
    &&& cmd_attributes(b.attributes@, 0)
    &&& plain_attribute(b.attributes@[3], "triggers"@, AttributeType::SetOf(Box::new(AttributeType::String)), "What input changes should trigger this update"@, AttributeConstraint::Optional, false)
    &&& plain_attribute(b.attributes@[4], "reloads"@, AttributeType::SetOf(Box::new(AttributeType::String)), "What outputs should be read again after this update"@, AttributeConstraint::Optional, false)
    &&& b.blocks@.len() == 0
}

/// The nested block `update`
fn update_block_entry() -> (r: (String, NestedBlock))
    ensures
        update_block(r),
{
    let mut a: Vec<(String, Attribute)> = Vec::new();
    push_cmd_attributes(&mut a);
    a.push(plain_entry("triggers", AttributeType::SetOf(Box::new(AttributeType::String)), "What input changes should trigger this update", AttributeConstraint::Optional, false));
    a.push(plain_entry("reloads", AttributeType::SetOf(Box::new(AttributeType::String)), "What outputs should be read again after this update", AttributeConstraint::Optional, false));
    let b = plain_block_of(a, Vec::new(), "Command to execute when an input changes");
    ("update".to_owned(), NestedBlock::SetOf(b))
}

/// The optional block `connect` described by `d`, with the attributes of the connection
pub open spec fn connect_block(e: (String, NestedBlock), d: Seq<char>, connect_attributes: Vec<(String, Attribute)>) -> bool {
    &&& e.0@ == "connect"@
    &&& e.1 matches NestedBlock::Optional(b)
    &&& plain_block(b, d)
    &&& b.attributes == connect_attributes
    &&& b.blocks@.len() == 0
}

/// The optional block `connect`
fn connect_block_entry(description: &str, connect_attributes: Vec<(String, Attribute)>) -> (r: (String, NestedBlock))
    ensures
        connect_block(r, description@, connect_attributes),
{
    let b = plain_block_of(connect_attributes, Vec::new(), description);
    ("connect".to_owned(), NestedBlock::Optional(b))
}

impl<C> ResourceState<C> {
    /// The schema of a resource managed with commands: its identifier, inputs, state and
    /// command concurrency; its `read`, `create`, `destroy` and `update` blocks; and the
    /// connection, whose attributes are `connect_attributes`, in an optional block `connect`
    pub fn schema(connect_attributes: Vec<(String, Attribute)>) -> (r: Schema)
        ensures
            r.version == 1,
            plain_block(r.block, "Custom resource managed with local commands"@),
            r.block.attributes@.len() == 4,
            plain_attribute(r.block.attributes@[0], "id"@, AttributeType::String, "Random id for the command"@, AttributeConstraint::Computed, false),
            plain_attribute(r.block.attributes@[1], "inputs"@, AttributeType::MapOf(Box::new(AttributeType::String)), "Inputs to the commands"@, AttributeConstraint::OptionalComputed, false),
            plain_attribute(r.block.attributes@[2], "state"@, AttributeType::MapOf(Box::new(AttributeType::String)), "State of the resource"@, AttributeConstraint::Computed, false),
            plain_attribute(r.block.attributes@[3], "command_concurrency"@, AttributeType::Number, "Number of conccurent commands spawned in parallel"@, AttributeConstraint::Optional, false),
            r.block.blocks@.len() == 5,
            read_block(r.block.blocks@[0]),
            cmd_block(r.block.blocks@[1], "create"@, "Command to execute to create the resource"@),
            cmd_block(r.block.blocks@[2], "destroy"@, "Command to execute to destroy the resource"@),
            update_block(r.block.blocks@[3]),
            connect_block(r.block.blocks@[4], "Connection configuration"@, connect_attributes),
    {
        let mut a: Vec<(String, Attribute)> = Vec::new();
        a.push(plain_entry("id", AttributeType::String, "Random id for the command", AttributeConstraint::Computed, false));
        a.push(plain_entry("inputs", AttributeType::MapOf(Box::new(AttributeType::String)), "Inputs to the commands", AttributeConstraint::OptionalComputed, false));
        a.push(plain_entry("state", AttributeType::MapOf(Box::new(AttributeType::String)), "State of the resource", AttributeConstraint::Computed, false));
        a.push(plain_entry("command_concurrency", AttributeType::Number, "Number of conccurent commands spawned in parallel", AttributeConstraint::Optional, false));
        let mut blocks: Vec<(String, NestedBlock)> = Vec::new();
        blocks.push(read_block_entry());
        blocks.push(cmd_block_entry("create", "Command to execute to create the resource"));
        blocks.push(cmd_block_entry("destroy", "Command to execute to destroy the resource"));
        blocks.push(update_block_entry());
        blocks.push(connect_block_entry("Connection configuration", connect_attributes));
        Schema { version: 1, block: plain_block_of(a, blocks, "Custom resource managed with local commands") }
    }
}

impl<C> DataSourceState<C> {
    /// The schema of a data source read with commands: its inputs, outputs and command
    /// concurrency; its `read` blocks; and the connection, whose attributes are
    /// `connect_attributes`, in an optional block `connect`
    pub fn schema(connect_attributes: Vec<(String, Attribute)>) -> (r: Schema)
        ensures
            r.version == 1,
            plain_block(r.block, "Custom resource managed with local commands"@),
            r.block.attributes@.len() == 3,
            plain_attribute(r.block.attributes@[0], "inputs"@, AttributeType::MapOf(Box::new(AttributeType::String)), "Inputs to the commands"@, AttributeConstraint::OptionalComputed, false),
            plain_attribute(r.block.attributes@[1], "outputs"@, AttributeType::MapOf(Box::new(AttributeType::String)), "Outputs to the commands"@, AttributeConstraint::Computed, false),
            plain_attribute(r.block.attributes@[2], "command_concurrency"@, AttributeType::Number, "Number of conccurent commands spawned in parallel"@, AttributeConstraint::Optional, false),
            r.block.blocks@.len() == 2,
            read_block(r.block.blocks@[0]),
            connect_block(r.block.blocks@[1], "Connection information"@, connect_attributes),
    {
        let mut a: Vec<(String, Attribute)> = Vec::new();
        a.push(plain_entry("inputs", AttributeType::MapOf(Box::new(AttributeType::String)), "Inputs to the commands", AttributeConstraint::OptionalComputed, false));
        a.push(plain_entry("outputs", AttributeType::MapOf(Box::new(AttributeType::String)), "Outputs to the commands", AttributeConstraint::Computed, false));
        a.push(plain_entry("command_concurrency", AttributeType::Number, "Number of conccurent commands spawned in parallel", AttributeConstraint::Optional, false));
        let mut blocks: Vec<(String, NestedBlock)> = Vec::new();
        blocks.push(read_block_entry());
        blocks.push(connect_block_entry("Connection information", connect_attributes));
        Schema { version: 1, block: plain_block_of(a, blocks, "Custom resource managed with local commands") }
    }
}

} // verus!
