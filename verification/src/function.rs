//! The tool registry and the dispatcher: host functions are registered under
//! unique names with an advertised argument schema, and a model-issued
//! invocation is answered by looking the name up, decoding the untrusted
//! argument text into the tool's typed shape, and handing the typed call to
//! the host. Encoding the host's typed result back to text closes the turn.
use vstd::prelude::*;

verus! {

use crate::json::quote_string;
use crate::json::encode_list;
use crate::json::push_quoted;
use crate::json::string_from_chars;
use crate::json::str_eq;
use crate::project::ReadFileArgs;
use crate::project::WriteFileArgs;
use crate::project::spec_decode_read_args;
use crate::project::spec_decode_write_args;
use crate::project::decode_read_file_args;
use crate::project::decode_write_file_args;

// ---------------------------------------------------------------------------
// Argument shapes and their schemas
// ---------------------------------------------------------------------------
/// The typed argument shape of a registered tool. The set of shapes is
/// closed: the tools are fixed when the registry is built, never at runtime.
#[derive(Clone, Copy, PartialEq, Eq, Structural)]
pub enum ArgShape {
    /// The tool takes no arguments; its payload is ignored, not decoded.
    Unit,
    /// The tool takes [`ReadFileArgs`].
    ReadFile,
    /// The tool takes [`WriteFileArgs`].
    WriteFile,
}

/// One property of an advertised schema: `"name":{"description":...,"type":"string"}`.
pub open spec fn schema_prop(name: Seq<char>, desc: Seq<char>) -> Seq<char> {
    quote_string(name) + seq![':'] + seq!['{'] + quote_string("description"@) + seq![':']
        + quote_string(desc) + seq![','] + quote_string("type"@) + seq![':'] + quote_string(
        "string"@,
    ) + seq!['}']
}

/// An advertised object schema with its required keys and properties.
pub open spec fn schema_object(required: Seq<Seq<char>>, props: Seq<char>) -> Seq<char> {
    seq!['{'] + quote_string("type"@) + seq![':'] + quote_string("object"@) + seq![',']
        + quote_string("required"@) + seq![':'] + seq!['['] + encode_list(required) + seq![']']
        + seq![','] + quote_string("properties"@) + seq![':'] + seq!['{'] + props + seq!['}']
        + seq!['}']
}

/// The schema advertised for each argument shape: absent for the unit shape,
/// a minimal self-contained object schema otherwise.
pub open spec fn spec_schema(shape: ArgShape) -> Option<Seq<char>> {
    match shape {
        ArgShape::Unit => None,
        ArgShape::ReadFile => Some(
            schema_object(
                seq!["path"@],
                schema_prop("path"@, "a relative path to the file in the project directory"@),
            ),
        ),
        ArgShape::WriteFile => Some(
            schema_object(
                seq!["path"@, "contents"@],
                schema_prop("path"@, "a relative path to the file in the project directory"@)
                    + seq![','] + schema_prop("contents"@, "new contents of a file"@),
            ),
        ),
    }
}

fn push_schema_prop(out: &mut Vec<char>, name: &str, desc: &str)
    ensures
        final(out)@ == old(out)@ + schema_prop(name@, desc@),
{
    push_quoted(out, name);
    out.push(':');
    out.push('{');
    push_quoted(out, "description");
    out.push(':');
    push_quoted(out, desc);
    out.push(',');
    push_quoted(out, "type");
    out.push(':');
    push_quoted(out, "string");
    out.push('}');
    proof {
        assert(out@ =~= old(out)@ + schema_prop(name@, desc@));
    }
}

fn push_schema_head(out: &mut Vec<char>)
    ensures
        final(out)@ == old(out)@ + (seq!['{'] + quote_string("type"@) + seq![':'] + quote_string(
            "object"@,
        ) + seq![','] + quote_string("required"@) + seq![':'] + seq!['[']),
{
    out.push('{');
    push_quoted(out, "type");
    out.push(':');
    push_quoted(out, "object");
    out.push(',');
    push_quoted(out, "required");
    out.push(':');
    out.push('[');
    proof {
        assert(out@ =~= old(out)@ + (seq!['{'] + quote_string("type"@) + seq![':'] + quote_string(
            "object"@,
        ) + seq![','] + quote_string("required"@) + seq![':'] + seq!['[']));
    }
}

fn push_schema_middle(out: &mut Vec<char>)
    ensures
        final(out)@ == old(out)@ + (seq![']'] + seq![','] + quote_string("properties"@) + seq![':']
            + seq!['{']),
{
    out.push(']');
    out.push(',');
    push_quoted(out, "properties");
    out.push(':');
    out.push('{');
    proof {
        assert(out@ =~= old(out)@ + (seq![']'] + seq![','] + quote_string("properties"@)
            + seq![':'] + seq!['{']));
    }
}

/// The advertised schema text for an argument shape.
#[verifier::rlimit(60)]
pub fn schema_text(shape: ArgShape) -> (r: Option<String>)
    ensures
        r.deep_view() == spec_schema(shape),
{
    match shape {
        ArgShape::Unit => None,
        ArgShape::ReadFile => {
            let mut out: Vec<char> = Vec::new();
            push_schema_head(&mut out);
            push_quoted(&mut out, "path");
            push_schema_middle(&mut out);
            push_schema_prop(
                &mut out,
                "path",
                "a relative path to the file in the project directory",
            );
            out.push('}');
            out.push('}');
            proof {
                assert(encode_list(seq!["path"@]) == quote_string("path"@));
                assert(out@ =~= spec_schema(shape).unwrap());
            }
            Some(string_from_chars(out))
        },
        ArgShape::WriteFile => {
            let mut out: Vec<char> = Vec::new();
            push_schema_head(&mut out);
            push_quoted(&mut out, "path");
            out.push(',');
            push_quoted(&mut out, "contents");
            push_schema_middle(&mut out);
            push_schema_prop(
                &mut out,
                "path",
                "a relative path to the file in the project directory",
            );
            out.push(',');
            push_schema_prop(&mut out, "contents", "new contents of a file");
            out.push('}');
            out.push('}');
            proof {
                assert(seq!["path"@, "contents"@].drop_first() =~= seq!["contents"@]);
                assert(seq!["contents"@][0] == "contents"@);
                assert(encode_list(seq!["contents"@]) == quote_string("contents"@));
                assert(encode_list(seq!["path"@, "contents"@]) == quote_string("path"@) + seq![',']
                    + quote_string("contents"@));
                assert(out@ =~= spec_schema(shape).unwrap());
            }
            Some(string_from_chars(out))
        },
    }
}

// ---------------------------------------------------------------------------
// The registry
// ---------------------------------------------------------------------------
/// One registered tool: its unique name, the description advertised to the
/// model, and the typed shape its payloads are decoded into.
pub struct ToolEntry {
    pub name: String,
    pub description: String,
    pub shape: ArgShape,
}

/// The mathematical model of a registered tool.
pub struct ToolEntryModel {
    pub name: Seq<char>,
    pub description: Seq<char>,
    pub shape: ArgShape,
}

impl View for ToolEntry {
    type V = ToolEntryModel;

    open spec fn view(&self) -> ToolEntryModel {
        ToolEntryModel { name: self.name@, description: self.description@, shape: self.shape }
    }
}

/// A `{name, description, schema}` triple as advertised to the model.
pub struct FunctionDefinition {
    pub name: String,
    pub description: String,
    pub parameters: Option<String>,
}

/// A model-issued tool invocation request: a name and raw argument text.
pub struct FunctionCall {
    pub name: String,
    pub arguments: String,
}

/// The registry of callable tools, append-only once built.
pub struct CallableFunctionList {
    entries: Vec<ToolEntry>,
}

impl View for CallableFunctionList {
    type V = Seq<ToolEntryModel>;

    closed spec fn view(&self) -> Seq<ToolEntryModel> {
        self.entries@.map_values(|e: ToolEntry| e@)
    }
}

/// The index of the first entry carrying the name, from position `i` on;
/// negative when no entry does.
pub open spec fn first_index_from(entries: Seq<ToolEntryModel>, name: Seq<char>, i: int) -> int
    decreases entries.len() - i,
{
    if i < 0 || i >= entries.len() {
        -1
    } else if entries[i].name == name {
        i
    } else {
        first_index_from(entries, name, i + 1)
    }
}

pub open spec fn first_index(entries: Seq<ToolEntryModel>, name: Seq<char>) -> int {
    first_index_from(entries, name, 0)
}

/// Whether some entry carries the name.
pub open spec fn contains_name(entries: Seq<ToolEntryModel>, name: Seq<char>) -> bool {
    first_index(entries, name) >= 0
}

proof fn lemma_first_index_from(entries: Seq<ToolEntryModel>, name: Seq<char>, i: int)
    requires
        0 <= i <= entries.len(),
    ensures
        first_index_from(entries, name, i) >= 0 <==> exists|j: int|
            i <= j < entries.len() && (#[trigger] entries[j]).name == name,
        first_index_from(entries, name, i) >= 0 ==> i <= first_index_from(entries, name, i)
            < entries.len() && entries[first_index_from(entries, name, i)].name == name,
    decreases entries.len() - i,
{
    if i < entries.len() && entries[i].name != name {
        lemma_first_index_from(entries, name, i + 1);
    }
}

/// A name is contained exactly when some entry carries it, and the first
/// index then points at such an entry.
pub proof fn lemma_contains_name(entries: Seq<ToolEntryModel>, name: Seq<char>)
    ensures
        contains_name(entries, name) <==> exists|j: int|
            0 <= j < entries.len() && (#[trigger] entries[j]).name == name,
        contains_name(entries, name) ==> 0 <= first_index(entries, name) < entries.len()
            && entries[first_index(entries, name)].name == name,
{
    lemma_first_index_from(entries, name, 0);
}

/// The registry invariant: no two entries share a name.
pub open spec fn unique_names(entries: Seq<ToolEntryModel>) -> bool {
    forall|i: int, j: int| 0 <= i < j < entries.len() ==> (#[trigger] entries[i]).name != (
    #[trigger] entries[j]).name
}

/// A registration that was not refused keeps the names unique: the empty
/// registry is unique, and appending a fresh name preserves uniqueness, so
/// every registry built through [`CallableFunctionList::add_function`] keeps
/// the invariant.
pub proof fn lemma_add_keeps_names_unique(entries: Seq<ToolEntryModel>, e: ToolEntryModel)
    requires
        unique_names(entries),
        !contains_name(entries, e.name),
    ensures
        unique_names(entries.push(e)),
{
    lemma_contains_name(entries, e.name);
    let ext = entries.push(e);
    assert forall|i: int, j: int| 0 <= i < j < ext.len() implies (#[trigger] ext[i]).name != (
    #[trigger] ext[j]).name by {
        if j < entries.len() {
            assert(ext[i] == entries[i] && ext[j] == entries[j]);
        } else {
            assert(ext[i] == entries[i] && ext[j] == e);
        }
    }
}

/// Why a registration was refused.
#[derive(Debug)]
pub enum RegistryError {
    DuplicateName,
}

impl Default for CallableFunctionList {
    /// An empty registry.
    fn default() -> (r: CallableFunctionList)
        ensures
            r@ == Seq::<ToolEntryModel>::empty(),
    {
        let r = CallableFunctionList { entries: Vec::new() };
        proof {
            assert(r@ =~= Seq::<ToolEntryModel>::empty());
        }
        r
    }
}

impl CallableFunctionList {
    /// An empty registry.
    pub fn new() -> (r: CallableFunctionList)
        ensures
            r@ == Seq::<ToolEntryModel>::empty(),
    {
        let r = CallableFunctionList { entries: Vec::new() };
        proof {
            assert(r@ =~= Seq::<ToolEntryModel>::empty());
        }
        r
    }

    /// Register a tool under a name. The registration is refused — and the
    /// registry left unchanged — exactly when the name is already taken,
    /// whatever either tool's shape; otherwise the entry is appended.
    pub fn add_function(&mut self, name: &str, description: &str, shape: ArgShape) -> (r: Result<
        (),
        RegistryError,
    >)
        ensures
            r is Ok <==> !contains_name(old(self)@, name@),
            r is Ok ==> final(self)@ == old(self)@.push(
                ToolEntryModel { name: name@, description: description@, shape },
            ),
            r is Err ==> final(self)@ == old(self)@ && (r matches Err(
                RegistryError::DuplicateName,
            )),
    {
        let n = self.entries.len();
        let mut i: usize = 0;
        proof {
            lemma_contains_name(self@, name@);
        }
        while i < n
            invariant
                i <= n,
                n == self.entries.len(),
                self@.len() == n,
                first_index_from(self@, name@, 0) == first_index_from(self@, name@, i as int),
            decreases n - i,
        {
            proof {
                assert(self@[i as int] == self.entries@[i as int]@);
            }
            if str_eq(self.entries[i].name.as_str(), name) {
                proof {
                    assert(first_index_from(self@, name@, i as int) == i as int);
                }
                return Err(RegistryError::DuplicateName);
            }
            i = i + 1;
        }
        proof {
            assert(first_index_from(self@, name@, n as int) == -1);
        }
        let ghost before = self@;
        self.entries.push(
            ToolEntry { name: name.to_owned(), description: description.to_owned(), shape },
        );
        proof {
            assert(self@ =~= before.push(
                ToolEntryModel { name: name@, description: description@, shape },
            ));
        }
        Ok(())
    }

    /// The advertised `{name, description, schema}` triples, in registration
    /// order.
    pub fn function_definitions(&self) -> (r: Vec<FunctionDefinition>)
        ensures
            r@.len() == self@.len(),
            forall|i: int| 0 <= i < r@.len() ==> (#[trigger] r@[i]).name@ == self@[i].name
                && r@[i].description@ == self@[i].description && r@[i].parameters.deep_view()
                == spec_schema(self@[i].shape),
    {
        let mut defs: Vec<FunctionDefinition> = Vec::new();
        let mut i: usize = 0;
        let n = self.entries.len();
        while i < n
            invariant
                i <= n,
                n == self.entries.len(),
                self@.len() == n,
                defs@.len() == i,
                forall|j: int| 0 <= j < i ==> (#[trigger] defs@[j]).name@ == self@[j].name
                    && defs@[j].description@ == self@[j].description && defs@[j].parameters.deep_view()
                    == spec_schema(self@[j].shape),
            decreases n - i,
        {
            proof {
                assert(self@[i as int] == self.entries@[i as int]@);
            }
            let e = &self.entries[i];
            defs.push(
                FunctionDefinition {
                    name: e.name.clone(),
                    description: e.description.clone(),
                    parameters: schema_text(e.shape),
                },
            );
            i = i + 1;
        }
        defs
    }
}

// ---------------------------------------------------------------------------
// Dispatch
// ---------------------------------------------------------------------------
/// How a dispatch must come out: unknown name, undecodable payload, or a
/// typed call of the named tool.
pub enum DispatchOutcome {
    NotFound,
    BadArgs,
    UnitCall,
    ReadCall(Seq<char>),
    WriteCall(Seq<char>, Seq<char>),
}

/// The outcome owed for a request against a registry: the first entry under
/// the requested name decides the shape; a unit tool never looks at its
/// payload; a typed tool's payload must decode against its shape.
pub open spec fn spec_dispatch(
    entries: Seq<ToolEntryModel>,
    name: Seq<char>,
    raw: Seq<char>,
) -> DispatchOutcome {
    let idx = first_index(entries, name);
    if idx < 0 {
        DispatchOutcome::NotFound
    } else {
        match entries[idx].shape {
            ArgShape::Unit => DispatchOutcome::UnitCall,
            ArgShape::ReadFile => match spec_decode_read_args(raw) {
                None => DispatchOutcome::BadArgs,
                Some(p) => DispatchOutcome::ReadCall(p),
            },
            ArgShape::WriteFile => match spec_decode_write_args(raw) {
                None => DispatchOutcome::BadArgs,
                Some(pc) => DispatchOutcome::WriteCall(pc.0, pc.1),
            },
        }
    }
}

/// A decoded invocation, ready for the host: the tool's name and its typed
/// arguments.
pub enum ToolArgs {
    NoArgs,
    Read(ReadFileArgs),
    Write(WriteFileArgs),
}

pub struct PendingInvocation {
    pub name: String,
    pub args: ToolArgs,
}

/// A dispatch failure: the name is not registered, the argument payload
/// does not decode, or a result cannot be encoded. The library's own
/// encoder is total, so it never produces the last of these; the variant
/// stands for hosts whose encoders are not.
#[derive(Debug)]
pub enum DispatchError {
    FunctionNotFound,
    Deserialize(String),
    Serialize(String),
}

/// What [`CallableFunctionList::dispatch`] owes: its result refines
/// [`spec_dispatch`] on the request, with the decode diagnostic fixed.
pub open spec fn dispatch_post(
    entries: Seq<ToolEntryModel>,
    name: Seq<char>,
    raw: Seq<char>,
    r: Result<PendingInvocation, DispatchError>,
) -> bool {
    match spec_dispatch(entries, name, raw) {
        DispatchOutcome::NotFound => r matches Err(DispatchError::FunctionNotFound),
        DispatchOutcome::BadArgs => r matches Err(DispatchError::Deserialize(m)) && m@
            == "malformed tool arguments"@,
        DispatchOutcome::UnitCall => r matches Ok(p) && p.name@ == name && p.args is NoArgs,
        DispatchOutcome::ReadCall(path) => r matches Ok(p) && p.name@ == name && (p.args matches
        ToolArgs::Read(a) && a.path@ == path),
        DispatchOutcome::WriteCall(path, contents) => r matches Ok(p) && p.name@ == name && (
        p.args matches ToolArgs::Write(a) && a.path@ == path && a.contents@ == contents),
    }
}

impl CallableFunctionList {
    /// Answer a model-issued invocation: look the name up, and decode the
    /// payload against the tool's shape. The unit shape ignores its payload.
    /// No host function is consulted here: the typed call is handed back for
    /// the host to perform, so a failed decode has no side effect at all.
    pub fn dispatch(&self, call: &FunctionCall) -> (r: Result<PendingInvocation, DispatchError>)
        ensures
            dispatch_post(self@, call.name@, call.arguments@, r),
    {
        let n = self.entries.len();
        let mut i: usize = 0;
        while i < n
            invariant
                i <= n,
                n == self.entries.len(),
                self@.len() == n,
                first_index_from(self@, call.name@, 0) == first_index_from(
                    self@,
                    call.name@,
                    i as int,
                ),
            decreases n - i,
        {
            proof {
                assert(self@[i as int] == self.entries@[i as int]@);
            }
            if str_eq(self.entries[i].name.as_str(), call.name.as_str()) {
                proof {
                    assert(first_index_from(self@, call.name@, i as int) == i as int);
                }
                let shape = self.entries[i].shape;
                match shape {
                    ArgShape::Unit => {
                        return Ok(
                            PendingInvocation { name: call.name.clone(), args: ToolArgs::NoArgs },
                        );
                    },
                    ArgShape::ReadFile => {
                        match decode_read_file_args(call.arguments.as_str()) {
                            None => {
                                return Err(
                                    DispatchError::Deserialize(
                                        "malformed tool arguments".to_owned(),
                                    ),
                                );
                            },
                            Some(a) => {
                                return Ok(
                                    PendingInvocation {
                                        name: call.name.clone(),
                                        args: ToolArgs::Read(a),
                                    },
                                );
                            },
                        }
                    },
                    ArgShape::WriteFile => {
                        match decode_write_file_args(call.arguments.as_str()) {
                            None => {
                                return Err(
                                    DispatchError::Deserialize(
                                        "malformed tool arguments".to_owned(),
                                    ),
                                );
                            },
                            Some(a) => {
                                return Ok(
                                    PendingInvocation {
                                        name: call.name.clone(),
                                        args: ToolArgs::Write(a),
                                    },
                                );
                            },
                        }
                    },
                }
            }
            i = i + 1;
        }
        proof {
            assert(first_index_from(self@, call.name@, n as int) == -1);
        }
        Err(DispatchError::FunctionNotFound)
    }
}

// ---------------------------------------------------------------------------
// Laws of the registry and the dispatcher
// ---------------------------------------------------------------------------
/// Registering a second tool under a taken name must fail, whatever either
/// tool's argument shape: a registry holding any entry under the name admits
/// no registration under it.
pub proof fn lemma_duplicate_name_rejected(
    entries: Seq<ToolEntryModel>,
    name: Seq<char>,
    i: int,
)
    requires
        0 <= i < entries.len(),
        entries[i].name == name,
    ensures
        contains_name(entries, name),
{
    lemma_contains_name(entries, name);
}

/// A unit-shaped tool dispatches successfully on every payload, and the
/// outcome never depends on the payload: the payload is not decoded at all.
pub proof fn lemma_unit_payload_ignored(
    entries: Seq<ToolEntryModel>,
    name: Seq<char>,
    raw1: Seq<char>,
    raw2: Seq<char>,
)
    requires
        contains_name(entries, name),
        entries[first_index(entries, name)].shape is Unit,
    ensures
        spec_dispatch(entries, name, raw1) == DispatchOutcome::UnitCall,
        spec_dispatch(entries, name, raw1) == spec_dispatch(entries, name, raw2),
{
}

/// A payload that does not decode against the named tool's shape yields the
/// decode failure, never a typed call: no host function can be invoked and
/// no side effect can occur.
pub proof fn lemma_bad_args_no_invocation(
    entries: Seq<ToolEntryModel>,
    name: Seq<char>,
    raw: Seq<char>,
)
    requires
        contains_name(entries, name),
        entries[first_index(entries, name)].shape is ReadFile ==> spec_decode_read_args(raw)
            is None,
        entries[first_index(entries, name)].shape is WriteFile ==> spec_decode_write_args(raw)
            is None,
        !(entries[first_index(entries, name)].shape is Unit),
    ensures
        spec_dispatch(entries, name, raw) == DispatchOutcome::BadArgs,
{
}

/// A name absent from the registry yields the lookup failure on every
/// payload; nothing is decoded and nothing is invoked.
pub proof fn lemma_unknown_name_not_found(
    entries: Seq<ToolEntryModel>,
    name: Seq<char>,
    raw: Seq<char>,
)
    requires
        !contains_name(entries, name),
    ensures
        spec_dispatch(entries, name, raw) == DispatchOutcome::NotFound,
{
}

} // verus!
