//! Bounded versioned JSONL sessions for explicitly trusted external programs.
pub mod frame;
pub mod schema;
pub mod session;

use crate::json::{alike, Json, Tree};
use crate::text::{byte_len, contains, copied_list, is_name, joined, name, same, texts, utf8_len};
use crate::time::Span;
use vstd::prelude::*;

verus! {

pub const PROTOCOL_VERSION: u32 = 1;
pub const MAX_FRAME_BYTES: usize = 1048576;

#[derive(Debug, Clone, Copy, PartialEq, Eq, Structural)]
pub enum ExtensionKind {
    Node,
    Plugin,
}

pub struct MethodDeclaration {
    pub name: String,
    pub read_only: bool,
    pub input_schema: Json,
    pub output_schema: Json,
}

pub struct ContractDeclaration {
    pub id: String,
    pub version: u32,
    pub methods: Vec<MethodDeclaration>,
}

pub struct ExtensionMetadata {
    pub protocol_version: u32,
    pub id: String,
    pub kind: ExtensionKind,
    pub contracts: Vec<ContractDeclaration>,
    pub capabilities: Vec<String>,
    pub workspaces: Vec<String>,
}

#[derive(Debug, Clone, Copy, PartialEq, Eq, Structural)]
pub enum Outcome {
    Rejected,
    Unknown,
    Cancelled,
}

pub enum Message {
    Hello { protocol_version: u32, expected_id: String, kind: ExtensionKind },
    Ready { metadata: ExtensionMetadata },
    Call { id: String, contract: String, version: u32, method: String, params: Json, timeout_ms: u64 },
    Result { id: String, result: Json },
    Error { id: String, code: String, message: String, outcome: Outcome },
    Callback { id: String, parent_id: String, method: String, params: Json },
    Cancel { id: String },
}

#[derive(Debug)]
pub enum ExtensionError {
    Configuration(String),
    Unavailable(String),
    Protocol(String),
    Rejected(String),
    Unknown { call_id: String, message: String },
    Cancelled,
}

/// How an extension's program is started. Environment overrides are listed by name.
pub struct CommandSpec {
    pub program: String,
    pub args: Vec<String>,
    pub cwd: String,
    pub env: Vec<(String, String)>,
}

/// An extension's identity and how it is started.
pub struct ExtensionClient {
    pub id: String,
    pub kind: ExtensionKind,
    pub command: CommandSpec,
}

pub struct ExtensionCall {
    pub contract: String,
    pub version: u32,
    pub method: String,
    pub params: Json,
    pub timeout: Span,
}

// Mathematical models.

pub enum Fault {
    Configuration(Seq<char>),
    Unavailable(Seq<char>),
    Protocol(Seq<char>),
    Rejected(Seq<char>),
    Unknown { call_id: Seq<char>, message: Seq<char> },
    Cancelled,
}

impl View for ExtensionError {
    type V = Fault;

    open spec fn view(&self) -> Fault {
        match self {
            ExtensionError::Configuration(m) => Fault::Configuration(m@),
            ExtensionError::Unavailable(m) => Fault::Unavailable(m@),
            ExtensionError::Protocol(m) => Fault::Protocol(m@),
            ExtensionError::Rejected(m) => Fault::Rejected(m@),
            ExtensionError::Unknown { call_id, message } => Fault::Unknown { call_id: call_id@, message: message@ },
            ExtensionError::Cancelled => Fault::Cancelled,
        }
    }
}

pub struct MethodView {
    pub name: Seq<char>,
    pub read_only: bool,
    pub input_schema: Tree,
    pub output_schema: Tree,
}

pub struct ContractView {
    pub id: Seq<char>,
    pub version: u32,
    pub methods: Seq<MethodView>,
}

pub struct MetadataView {
    pub protocol_version: u32,
    pub id: Seq<char>,
    pub kind: ExtensionKind,
    pub contracts: Seq<ContractView>,
    pub capabilities: Seq<Seq<char>>,
    pub workspaces: Seq<Seq<char>>,
}

impl View for MethodDeclaration {
    type V = MethodView;

    open spec fn view(&self) -> MethodView {
        MethodView {
            name: self.name@,
            read_only: self.read_only,
            input_schema: self.input_schema@,
            output_schema: self.output_schema@,
        }
    }
}

impl View for ContractDeclaration {
    type V = ContractView;

    open spec fn view(&self) -> ContractView {
        ContractView {
            id: self.id@,
            version: self.version,
            methods: self.methods@.map_values(|m: MethodDeclaration| m@),
        }
    }
}

impl View for ExtensionMetadata {
    type V = MetadataView;

    open spec fn view(&self) -> MetadataView {
        MetadataView {
            protocol_version: self.protocol_version,
            id: self.id@,
            kind: self.kind,
            contracts: self.contracts@.map_values(|c: ContractDeclaration| c@),
            capabilities: texts(self.capabilities@),
            workspaces: texts(self.workspaces@),
        }
    }
}

/// The text shown for a failure.
pub open spec fn fault_message(fault: Fault) -> Seq<char> {
    match fault {
        Fault::Configuration(m) => "invalid extension configuration: "@ + m,
        Fault::Unavailable(m) => "extension unavailable: "@ + m,
        Fault::Protocol(m) => "extension protocol violation: "@ + m,
        Fault::Rejected(m) => "extension rejected request: "@ + m,
        Fault::Unknown { call_id, message } => "extension call "@ + call_id + " outcome is unknown: "@ + message,
        Fault::Cancelled => "extension call cancelled before dispatch"@,
    }
}

impl ExtensionError {
    /// The text shown for this failure.
    pub fn message(&self) -> (r: String)
        ensures
            r@ == fault_message(self@),
    {
        match self {
            ExtensionError::Configuration(m) => joined("invalid extension configuration: ", m),
            ExtensionError::Unavailable(m) => joined("extension unavailable: ", m),
            ExtensionError::Protocol(m) => joined("extension protocol violation: ", m),
            ExtensionError::Rejected(m) => joined("extension rejected request: ", m),
            ExtensionError::Unknown { call_id, message } => {
                let text = joined("extension call ", call_id);
                let text = joined(&text, " outcome is unknown: ");
                joined(&text, message)
            },
            ExtensionError::Cancelled => crate::text::copied("extension call cancelled before dispatch"),
        }
    }
}

/// Letters, digits, `.`, `_` and `-`, up to 128 bytes.
pub open spec fn is_id(value: Seq<char>) -> bool {
    is_name(value, 128)
}

pub fn valid_id(value: &str) -> (r: bool)
    ensures
        r == is_id(value@),
{
    name(value, 128)
}

/// An environment override that a program may be given.
pub open spec fn env_entry_valid(key: Seq<char>, value: Seq<char>) -> bool {
    &&& 0 < key.len() && byte_len(key) <= 128
    &&& !key.contains('=') && !key.contains('\0')
    &&& byte_len(value) <= 8192 && !value.contains('\0')
}

pub open spec fn argument_valid(arg: Seq<char>) -> bool {
    byte_len(arg) <= 8192 && !arg.contains('\0')
}

pub struct CommandView {
    pub program: Seq<char>,
    pub args: Seq<Seq<char>>,
    pub cwd: Seq<char>,
    pub env: Seq<(Seq<char>, Seq<char>)>,
}

pub open spec fn env_of(list: Seq<(String, String)>) -> Seq<(Seq<char>, Seq<char>)> {
    list.map_values(|e: (String, String)| (e.0@, e.1@))
}

impl View for CommandSpec {
    type V = CommandView;

    open spec fn view(&self) -> CommandView {
        CommandView { program: self.program@, args: texts(self.args@), cwd: self.cwd@, env: env_of(self.env@) }
    }
}

impl Clone for CommandSpec {
    fn clone(&self) -> (r: Self)
        ensures
            r@ == self@,
    {
        let mut env: Vec<(String, String)> = Vec::new();
        let mut i: usize = 0;
        while i < self.env.len()
            invariant
                i <= self.env.len(),
                env.len() == i,
                forall|j: int| 0 <= j < i ==> (#[trigger] env@[j]).0@ == self.env@[j].0@ && env@[j].1@ == self.env@[j].1@,
            decreases self.env.len() - i,
        {
            env.push((self.env[i].0.clone(), self.env[i].1.clone()));
            i = i + 1;
        }
        assert(env_of(env@) =~= env_of(self.env@));
        CommandSpec { program: self.program.clone(), args: copied_list(&self.args), cwd: self.cwd.clone(), env }
    }
}

pub open spec fn all_env_valid(env: Seq<(Seq<char>, Seq<char>)>) -> bool {
    forall|i: int| 0 <= i < env.len() ==> env_entry_valid((#[trigger] env[i]).0, env[i].1)
}

pub open spec fn all_args_valid(args: Seq<Seq<char>>) -> bool {
    forall|i: int| 0 <= i < args.len() ==> argument_valid(#[trigger] args[i])
}

/// The rule that a command breaks. `located` says that program and working
/// directory exist as absolute local paths.
pub open spec fn command_fault(c: CommandView, located: bool) -> Option<Fault> {
    if !located {
        Some(Fault::Configuration("program and cwd must be existing absolute local paths"@))
    } else if c.env.len() > 32 || !all_env_valid(c.env) {
        Some(Fault::Configuration("invalid environment overrides"@))
    } else if c.args.len() > 64 || !all_args_valid(c.args) {
        Some(Fault::Configuration("invalid command arguments"@))
    } else {
        None
    }
}

impl CommandSpec {
    /// Checks a command whose paths the caller has looked at.
    pub fn validate(&self, located: bool) -> (r: Result<(), ExtensionError>)
        ensures
            match r {
                Ok(_) => command_fault(self@, located) is None,
                Err(e) => command_fault(self@, located) == Some(e@),
            },
    {
        if !located {
            return Err(
                ExtensionError::Configuration(crate::text::copied("program and cwd must be existing absolute local paths")),
            );
        }
        let mut env_valid = self.env.len() <= 32;
        let mut i: usize = 0;
        while i < self.env.len()
            invariant
                i <= self.env.len(),
                env_valid == (self.env.len() <= 32 && forall|j: int|
                    0 <= j < i ==> env_entry_valid((#[trigger] env_of(self.env@)[j]).0, env_of(self.env@)[j].1)),
            decreases self.env.len() - i,
        {
            let (key, value) = &self.env[i];
            let valid = !key.as_str().is_empty() && utf8_len(key) <= 128 && !contains(key, '=') && !contains(key, '\0') && utf8_len(value)
                <= 8192 && !contains(value, '\0');
            assert(env_of(self.env@)[i as int] == (key@, value@));
            env_valid = env_valid && valid;
            i = i + 1;
        }
        if !env_valid {
            return Err(ExtensionError::Configuration(crate::text::copied("invalid environment overrides")));
        }
        let mut args_valid = self.args.len() <= 64;
        let mut k: usize = 0;
        while k < self.args.len()
            invariant
                k <= self.args.len(),
                args_valid == (self.args.len() <= 64 && forall|j: int|
                    0 <= j < k ==> argument_valid(#[trigger] texts(self.args@)[j])),
            decreases self.args.len() - k,
        {
            let valid = utf8_len(&self.args[k]) <= 8192 && !contains(&self.args[k], '\0');
            assert(texts(self.args@)[k as int] == self.args@[k as int]@);
            args_valid = args_valid && valid;
            k = k + 1;
        }
        if !args_valid {
            return Err(ExtensionError::Configuration(crate::text::copied("invalid command arguments")));
        }
        Ok(())
    }
}

impl Clone for MethodDeclaration {
    fn clone(&self) -> (r: Self)
        ensures
            r@ == self@,
    {
        MethodDeclaration {
            name: self.name.clone(),
            read_only: self.read_only,
            input_schema: self.input_schema.copy(),
            output_schema: self.output_schema.copy(),
        }
    }
}

impl Clone for ContractDeclaration {
    fn clone(&self) -> (r: Self)
        ensures
            r@ == self@,
    {
        let mut methods: Vec<MethodDeclaration> = Vec::new();
        let mut i: usize = 0;
        while i < self.methods.len()
            invariant
                i <= self.methods.len(),
                methods.len() == i,
                forall|j: int| 0 <= j < i ==> (#[trigger] methods@[j])@ == self.methods@[j]@,
            decreases self.methods.len() - i,
        {
            methods.push(self.methods[i].clone());
            i = i + 1;
        }
        let r = ContractDeclaration { id: self.id.clone(), version: self.version, methods };
        assert(r@.methods =~= self@.methods);
        r
    }
}

impl Clone for ExtensionMetadata {
    fn clone(&self) -> (r: Self)
        ensures
            r@ == self@,
    {
        let mut contracts: Vec<ContractDeclaration> = Vec::new();
        let mut i: usize = 0;
        while i < self.contracts.len()
            invariant
                i <= self.contracts.len(),
                contracts.len() == i,
                forall|j: int| 0 <= j < i ==> (#[trigger] contracts@[j])@ == self.contracts@[j]@,
            decreases self.contracts.len() - i,
        {
            contracts.push(self.contracts[i].clone());
            i = i + 1;
        }
        let r = ExtensionMetadata {
            protocol_version: self.protocol_version,
            id: self.id.clone(),
            kind: self.kind,
            contracts,
            capabilities: copied_list(&self.capabilities),
            workspaces: copied_list(&self.workspaces),
        };
        assert(r@.contracts =~= self@.contracts);
        r
    }
}

pub open spec fn same_method(a: MethodView, b: MethodView) -> bool {
    a.name == b.name && a.read_only == b.read_only && alike(a.input_schema, b.input_schema) && alike(
        a.output_schema,
        b.output_schema,
    )
}

pub open spec fn same_contract(a: ContractView, b: ContractView) -> bool {
    &&& a.id == b.id && a.version == b.version
    &&& a.methods.len() == b.methods.len()
    &&& forall|i: int| 0 <= i < a.methods.len() && i < b.methods.len() ==> same_method(#[trigger] a.methods[i], b.methods[i])
}

/// The same declarations, with schemas compared as values.
pub open spec fn same_metadata(a: MetadataView, b: MetadataView) -> bool {
    &&& a.protocol_version == b.protocol_version && a.id == b.id && a.kind == b.kind
    &&& a.contracts.len() == b.contracts.len()
    &&& forall|i: int|
        0 <= i < a.contracts.len() && i < b.contracts.len() ==> same_contract(#[trigger] a.contracts[i], b.contracts[i])
    &&& a.capabilities == b.capabilities
    &&& a.workspaces == b.workspaces
}

impl ContractDeclaration {
    pub fn equals(&self, other: &ContractDeclaration) -> (r: bool)
        ensures
            r == same_contract(self@, other@),
    {
        if !same(&self.id, &other.id) || self.version != other.version || self.methods.len() != other.methods.len() {
            return false;
        }
        let mut i: usize = 0;
        while i < self.methods.len()
            invariant
                i <= self.methods.len() == other.methods.len(),
                forall|j: int| 0 <= j < i ==> same_method((#[trigger] self.methods@[j])@, other.methods@[j]@),
            decreases self.methods.len() - i,
        {
            let a = &self.methods[i];
            let b = &other.methods[i];
            if !(same(&a.name, &b.name) && a.read_only == b.read_only && a.input_schema.equals(&b.input_schema)
                && a.output_schema.equals(&b.output_schema)) {
                assert(!same_method(self@.methods[i as int], other@.methods[i as int]));
                return false;
            }
            i = i + 1;
        }
        assert forall|j: int| 0 <= j < self@.methods.len() implies same_method(#[trigger] self@.methods[j], other@.methods[j]) by {
            assert(same_method(self.methods@[j]@, other.methods@[j]@));
        }
        true
    }
}

impl ExtensionMetadata {
    pub fn equals(&self, other: &ExtensionMetadata) -> (r: bool)
        ensures
            r == same_metadata(self@, other@),
    {
        if self.protocol_version != other.protocol_version || !same(&self.id, &other.id) || self.kind != other.kind
            || self.contracts.len() != other.contracts.len() || !crate::recovery::approval::same_list(
            &self.capabilities,
            &other.capabilities,
        ) || !crate::recovery::approval::same_list(&self.workspaces, &other.workspaces) {
            return false;
        }
        let mut i: usize = 0;
        while i < self.contracts.len()
            invariant
                i <= self.contracts.len() == other.contracts.len(),
                forall|j: int| 0 <= j < i ==> same_contract((#[trigger] self.contracts@[j])@, other.contracts@[j]@),
            decreases self.contracts.len() - i,
        {
            if !self.contracts[i].equals(&other.contracts[i]) {
                assert(!same_contract(self@.contracts[i as int], other@.contracts[i as int]));
                return false;
            }
            i = i + 1;
        }
        assert forall|j: int| 0 <= j < self@.contracts.len() implies same_contract(
            #[trigger] self@.contracts[j],
            other@.contracts[j],
        ) by {
            assert(same_contract(self.contracts@[j]@, other.contracts@[j]@));
        }
        true
    }
}

/// The identity of a call: the process, when it is made and a number that no other call of
/// the process has.
pub fn call_id(process: u32, nanos: &str, number: u64) -> (r: String)
    ensures
        r@ == crate::text::decimal(process as nat) + "-"@ + nanos@ + "-"@ + crate::text::decimal(number as nat),
{
    let mut r = joined(&crate::text::decimal_text(process as u64), "-");
    r.append(nanos);
    r.append("-");
    r.append(crate::text::decimal_text(number).as_str());
    r
}

} // verus!
