//! The in-memory model of one parsed API schema file: type aliases, enums,
//! unions, messages, services and import references, together with the
//! configuration value that drives a generator run.  Parsing the schema
//! text into these values happens outside the verified core; everything
//! here is plain data.

use vstd::prelude::*;

verus! {

/// The size descriptor a field may carry: a compile-time length, or a
/// runtime-bounded length with an optional declared maximum.
#[derive(Debug, Clone)]
pub enum VppJsApiFieldSize {
    Fixed(u64),
    Variable(Option<u64>),
}

/// One field of a message or of a plain wire type: a wire field name, a
/// wire type name, an optional size descriptor and optional legal-value
/// options (informational only; they never change the mapped type).
#[derive(Debug, Clone)]
pub struct VppJsApiMessageFieldDef {
    pub name: String,
    pub ctype: String,
    pub maybe_size: Option<VppJsApiFieldSize>,
    pub maybe_options: Option<Vec<(String, String)>>,
}

/// A message: its wire name, its CRC-derived version tag (as parsed, with
/// a leading "0x"), and its fields in declaration order.
#[derive(Debug, Clone)]
pub struct VppJsApiMessage {
    pub name: String,
    pub crc: String,
    pub fields: Vec<VppJsApiMessageFieldDef>,
}

/// A plain wire structure type: a name and its fields in order.
#[derive(Debug, Clone)]
pub struct VppJsApiType {
    pub name: String,
    pub fields: Vec<VppJsApiMessageFieldDef>,
}

/// One named member of an enumeration with its integer value.
#[derive(Debug, Clone)]
pub struct VppJsApiEnumMember {
    pub name: String,
    pub value: u64,
}

/// An enumeration: a name, its members, and the wire name of its backing
/// integer width.
#[derive(Debug, Clone)]
pub struct VppJsApiEnum {
    pub name: String,
    pub members: Vec<VppJsApiEnumMember>,
    pub enumtype: String,
}

/// One member of a union: a wire type name and a member name.
#[derive(Debug, Clone)]
pub struct VppJsApiUnionMember {
    pub ctype: String,
    pub name: String,
}

/// A union: a name plus its members in order.
#[derive(Debug, Clone)]
pub struct VppJsApiUnion {
    pub name: String,
    pub members: Vec<VppJsApiUnionMember>,
}

/// A type alias: a name bound to another wire type name, optionally with a
/// fixed length (an aliased array).
#[derive(Debug, Clone)]
pub struct VppJsApiAlias {
    pub name: String,
    pub ctype: String,
    pub maybe_length: Option<u64>,
}

/// A service entry: the request message name and its reply message name.
#[derive(Debug, Clone)]
pub struct VppJsApiService {
    pub request: String,
    pub reply: String,
}

/// One parsed schema file.
#[derive(Debug, Clone)]
pub struct VppJsApiFile {
    pub vl_api_version: String,
    pub types: Vec<VppJsApiType>,
    pub enums: Vec<VppJsApiEnum>,
    pub unions: Vec<VppJsApiUnion>,
    pub aliases: Vec<VppJsApiAlias>,
    pub messages: Vec<VppJsApiMessage>,
    pub services: Vec<VppJsApiService>,
    pub imports: Vec<String>,
}

/// The traversal strategy a run uses.
#[derive(Debug, Clone)]
pub enum OptParseType {
    File,
    Tree,
    ApiType,
    ApiMessage,
}

/// The resolved configuration of one generator run.
#[derive(Debug, Clone)]
pub struct Opts {
    /// Input file or directory name.
    pub in_file: String,
    /// Output file name.
    pub out_file: String,
    /// Traversal strategy for the operation.
    pub parse_type: OptParseType,
    /// Package name for the generated package.
    pub package_name: String,
    /// Dependency specification inserted verbatim into the generated
    /// manifest.
    pub vppapi_opts: String,
    /// Destination directory for the generated package.
    pub package_path: String,
    /// Print every message name with its CRC tag.
    pub print_message_names: bool,
    /// Run the types-then-rest binding emission pass.
    pub create_binding: bool,
    /// Scaffold the full package.
    pub create_package: bool,
    /// Run the code emitter at all.
    pub generate_code: bool,
    /// Diagnostic verbosity.
    pub verbose: i32,
}

} // verus!
