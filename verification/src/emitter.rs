//! The code emitter: from one schema file and the enum-width registry to
//! generated source text, one block per alias, enum, union, plain type and
//! message.  Emission is a pure function of its inputs — identical inputs
//! give byte-identical output — and field order is part of the wire
//! contract, so fields are emitted exactly in declaration order.
//!
//! Naming: message and plain-type structs, alias synonyms and union
//! variants are camelized segment by segment; enum and union type names go
//! through the general case converter, the same transform the field-type
//! mapper applies, so that a field referencing an enum finds it under the
//! registry key the pre-pass recorded.

use vstd::prelude::*;
use crate::mapper::{
    get_ident, get_rust_field_type, get_rust_type_from_ctype, reg_entries, spec_get_ident,
    spec_rust_field_type, spec_rust_type, EnumWidthRegistry,
};
use crate::schema::{
    VppJsApiAlias, VppJsApiEnum, VppJsApiFile, VppJsApiMessage, VppJsApiMessageFieldDef,
    VppJsApiType, VppJsApiUnion,
};
use crate::strutil::{
    camelize, camelize_ident, push_dec, spec_camel, spec_dec, str_starts_with, upper_camel_of,
};
use vstd::string::{StrSliceExecFns, StringExecFns};

verus! {

/// One generated artifact: the text and the relative path it is written to.
#[derive(Debug, Clone)]
pub struct GeneratedUnit {
    pub path: String,
    pub text: String,
}

/// A CRC tag with a leading "0x" dropped.
pub open spec fn spec_strip0x(s: Seq<char>) -> Seq<char> {
    if "0x"@.len() <= s.len() && s.subrange(0, "0x"@.len() as int) == "0x"@ {
        s.subrange("0x"@.len() as int, s.len() as int)
    } else {
        s
    }
}

/// The stable wire identifier of a message: its name and its CRC tag
/// joined by an underscore.
pub open spec fn spec_msg_ident(m: VppJsApiMessage) -> Seq<char> {
    m.name@ + "_"@ + spec_strip0x(m.crc@)
}

/// Appends the stable name-and-CRC identifier of a message.
pub fn push_msg_ident(m: &VppJsApiMessage, out: &mut String)
    ensures
        final(out)@ == old(out)@ + spec_msg_ident(*m),
{
    out.append(m.name.as_str());
    out.append("_");
    if str_starts_with(m.crc.as_str(), "0x") {
        proof {
            reveal_strlit("0x");
        }
        let len = m.crc.unicode_len();
        let stripped = m.crc.as_str().substring_char(2, len);
        out.append(stripped);
    } else {
        out.append(m.crc.as_str());
    }
}

/// Whether some field carries exactly this wire name.
pub open spec fn spec_has_field(fields: Seq<VppJsApiMessageFieldDef>, name: Seq<char>) -> bool {
    exists|i: int| 0 <= i < fields.len() && fields[i].name@ == name
}

/// Looks for a field with the given wire name.
pub fn has_field(fields: &Vec<VppJsApiMessageFieldDef>, name: &str) -> (r: bool)
    ensures
        r == spec_has_field(fields@, name@),
{
    let mut i: usize = 0;
    let n = fields.len();
    while i < n
        invariant
            0 <= i <= n,
            n == fields@.len(),
            forall|j: int| 0 <= j < i ==> fields@[j].name@ != name@,
        decreases n - i,
    {
        if crate::strutil::str_eq(fields[i].name.as_str(), name) {
            return true;
        }
        i += 1;
    }
    false
}

/// The informational legal-value options of a field, rendered as pairs.
pub open spec fn spec_opt_pairs(opts: Seq<(String, String)>) -> Seq<char>
    decreases opts.len(),
{
    if opts.len() == 0 {
        Seq::empty()
    } else {
        " "@ + opts[0].0@ + "="@ + opts[0].1@ + spec_opt_pairs(opts.drop_first())
    }
}

/// The comment a field's options annotation turns into; the annotation
/// never changes the mapped type.
pub open spec fn spec_options_note(fld: VppJsApiMessageFieldDef) -> Seq<char> {
    match fld.maybe_options {
        Some(opts) => " // options:"@ + spec_opt_pairs(opts@),
        None => Seq::empty(),
    }
}

fn push_opt_pairs(opts: &Vec<(String, String)>, out: &mut String)
    ensures
        final(out)@ == old(out)@ + spec_opt_pairs(opts@),
{
    let n = opts.len();
    let mut i: usize = 0;
    proof {
        assert(opts@.subrange(0, n as int) =~= opts@);
    }
    while i < n
        invariant
            0 <= i <= n,
            n == opts@.len(),
            out@ + spec_opt_pairs(opts@.subrange(i as int, n as int)) == old(out)@
                + spec_opt_pairs(opts@),
        decreases n - i,
    {
        let ghost rem = opts@.subrange(i as int, n as int);
        assert(rem.drop_first() =~= opts@.subrange(i + 1, n as int));
        out.append(" ");
        out.append(opts[i].0.as_str());
        out.append("=");
        out.append(opts[i].1.as_str());
        assert(out@ + spec_opt_pairs(opts@.subrange(i + 1, n as int)) =~= old(out)@
            + spec_opt_pairs(opts@));
        i += 1;
    }
    assert(spec_opt_pairs(opts@.subrange(n as int, n as int)) =~= Seq::<char>::empty());
    assert(out@ + Seq::<char>::empty() =~= out@);
}

/// One emitted field: its mapped name, its mapped container type, and its
/// options annotation as a trailing comment.
pub open spec fn spec_field_line(
    reg: Seq<(Seq<char>, Seq<char>)>,
    fld: VppJsApiMessageFieldDef,
) -> Seq<char> {
    "    pub "@ + spec_get_ident(fld.name@) + ": "@ + spec_rust_field_type(reg, fld) + ","@
        + spec_options_note(fld) + "\n"@
}

fn push_field_line(reg: &EnumWidthRegistry, fld: &VppJsApiMessageFieldDef, out: &mut String)
    ensures
        final(out)@ == old(out)@ + spec_field_line(reg_entries(*reg), *fld),
{
    out.append("    pub ");
    let ident = get_ident(fld.name.as_str());
    out.append(ident.as_str());
    out.append(": ");
    let ftype = get_rust_field_type(reg, fld, false);
    out.append(ftype.as_str());
    out.append(",");
    match &fld.maybe_options {
        Some(opts) => {
            out.append(" // options:");
            push_opt_pairs(opts, out);
        },
        None => {},
    }
    out.append("\n");
}

/// The field lines of a structure, in declaration order.
pub open spec fn spec_field_lines(
    reg: Seq<(Seq<char>, Seq<char>)>,
    fields: Seq<VppJsApiMessageFieldDef>,
) -> Seq<char>
    decreases fields.len(),
{
    if fields.len() == 0 {
        Seq::empty()
    } else {
        spec_field_line(reg, fields[0]) + spec_field_lines(reg, fields.drop_first())
    }
}

fn push_field_lines(reg: &EnumWidthRegistry, fields: &Vec<VppJsApiMessageFieldDef>, out: &mut String)
    ensures
        final(out)@ == old(out)@ + spec_field_lines(reg_entries(*reg), fields@),
{
    let n = fields.len();
    let mut i: usize = 0;
    proof {
        assert(fields@.subrange(0, n as int) =~= fields@);
    }
    while i < n
        invariant
            0 <= i <= n,
            n == fields@.len(),
            out@ + spec_field_lines(reg_entries(*reg), fields@.subrange(i as int, n as int))
                == old(out)@ + spec_field_lines(reg_entries(*reg), fields@),
        decreases n - i,
    {
        let ghost rem = fields@.subrange(i as int, n as int);
        assert(rem.drop_first() =~= fields@.subrange(i + 1, n as int));
        push_field_line(reg, &fields[i], out);
        assert(out@ + spec_field_lines(reg_entries(*reg), fields@.subrange(i + 1, n as int))
            =~= old(out)@ + spec_field_lines(reg_entries(*reg), fields@));
        i += 1;
    }
    assert(spec_field_lines(reg_entries(*reg), fields@.subrange(n as int, n as int))
        =~= Seq::<char>::empty());
    assert(out@ + Seq::<char>::empty() =~= out@);
}

/// The block emitted for one message: a struct with the fields in order,
/// and the capability contract — identifier, context setter, client-index
/// setter — keyed to whichever fields the message has by name.
pub open spec fn spec_message_block(
    reg: Seq<(Seq<char>, Seq<char>)>,
    m: VppJsApiMessage,
) -> Seq<char> {
    "pub struct "@ + spec_camel(m.name@, true) + " {\n"@ + spec_field_lines(reg, m.fields@)
        + "}\n\n"@ + "impl VppApiMessage for "@ + spec_camel(m.name@, true) + " {\n"@
        + "    fn get_message_name_and_crc() -> String {\n        String::from(\""@
        + spec_msg_ident(m) + "\")\n    }\n"@ + "    fn set_context(&mut self, context: u32) {\n"@
        + (if spec_has_field(m.fields@, "context"@) {
        "        self.context = context;\n"@
    } else {
        Seq::<char>::empty()
    }) + "    }\n"@ + "    fn set_client_index(&mut self, client_index: u32) {\n"@
        + (if spec_has_field(m.fields@, "client_index"@) {
        "        self.client_index = client_index;\n"@
    } else {
        Seq::<char>::empty()
    }) + "    }\n"@ + "}\n\n"@
}

#[verifier::rlimit(60)]
fn push_message_block(reg: &EnumWidthRegistry, m: &VppJsApiMessage, out: &mut String)
    ensures
        final(out)@ == old(out)@ + spec_message_block(reg_entries(*reg), *m),
{
    let name = camelize_ident(m.name.as_str());
    out.append("pub struct ");
    out.append(name.as_str());
    out.append(" {\n");
    push_field_lines(reg, &m.fields, out);
    out.append("}\n\n");
    out.append("impl VppApiMessage for ");
    out.append(name.as_str());
    out.append(" {\n");
    out.append("    fn get_message_name_and_crc() -> String {\n        String::from(\"");
    push_msg_ident(m, out);
    out.append("\")\n    }\n");
    out.append("    fn set_context(&mut self, context: u32) {\n");
    if has_field(&m.fields, "context") {
        out.append("        self.context = context;\n");
    }
    out.append("    }\n");
    out.append("    fn set_client_index(&mut self, client_index: u32) {\n");
    if has_field(&m.fields, "client_index") {
        out.append("        self.client_index = client_index;\n");
    }
    out.append("    }\n");
    out.append("}\n\n");
}

/// The block emitted for one plain wire type: a struct with its fields in
/// order and no capability contract.
pub open spec fn spec_type_block(reg: Seq<(Seq<char>, Seq<char>)>, t: VppJsApiType) -> Seq<char> {
    "pub struct "@ + spec_camel(t.name@, true) + " {\n"@ + spec_field_lines(reg, t.fields@)
        + "}\n\n"@
}

fn push_type_block(reg: &EnumWidthRegistry, t: &VppJsApiType, out: &mut String)
    ensures
        final(out)@ == old(out)@ + spec_type_block(reg_entries(*reg), *t),
{
    let name = camelize_ident(t.name.as_str());
    out.append("pub struct ");
    out.append(name.as_str());
    out.append(" {\n");
    push_field_lines(reg, &t.fields, out);
    out.append("}\n\n");
}

/// The constant lines of one enum's members.
pub open spec fn spec_enum_members(e: VppJsApiEnum, i: int) -> Seq<char>
    recommends
        0 <= i <= e.members@.len(),
    decreases e.members@.len() - i,
{
    if i < 0 || e.members@.len() <= i {
        Seq::empty()
    } else {
        "pub const "@ + e.members@[i].name@ + ": "@ + e.enumtype@ + " = "@ + spec_dec(
            e.members@[i].value as nat,
        ) + ";\n"@ + spec_enum_members(e, i + 1)
    }
}

/// The block emitted for one enum: a named integer-constant set typed at
/// the enum's backing width, headed by the generated enum type name.
pub open spec fn spec_enum_block(e: VppJsApiEnum) -> Seq<char> {
    "// enum "@ + upper_camel_of(e.name@) + " : "@ + e.enumtype@ + "\n"@ + spec_enum_members(e, 0)
        + "\n"@
}

fn push_enum_block(e: &VppJsApiEnum, out: &mut String)
    ensures
        final(out)@ == old(out)@ + spec_enum_block(*e),
{
    out.append("// enum ");
    let name = camelize(e.name.as_str());
    out.append(name.as_str());
    out.append(" : ");
    out.append(e.enumtype.as_str());
    out.append("\n");
    let n = e.members.len();
    let mut i: usize = 0;
    while i < n
        invariant
            0 <= i <= n,
            n == e.members@.len(),
            out@ + spec_enum_members(*e, i as int) == old(out)@ + "// enum "@ + upper_camel_of(
                e.name@,
            ) + " : "@ + e.enumtype@ + "\n"@ + spec_enum_members(*e, 0),
        decreases n - i,
    {
        out.append("pub const ");
        out.append(e.members[i].name.as_str());
        out.append(": ");
        out.append(e.enumtype.as_str());
        out.append(" = ");
        push_dec(e.members[i].value, out);
        out.append(";\n");
        assert(out@ + spec_enum_members(*e, i + 1) =~= old(out)@ + "// enum "@ + upper_camel_of(
            e.name@,
        ) + " : "@ + e.enumtype@ + "\n"@ + spec_enum_members(*e, 0));
        i += 1;
    }
    out.append("\n");
    assert(spec_enum_members(*e, n as int) =~= Seq::<char>::empty());
    assert(out@ =~= old(out)@ + spec_enum_block(*e));
}

/// The variant lines of one union's members.
pub open spec fn spec_union_members(
    reg: Seq<(Seq<char>, Seq<char>)>,
    u: VppJsApiUnion,
    i: int,
) -> Seq<char>
    decreases u.members@.len() - i,
{
    if i < 0 || u.members@.len() <= i {
        Seq::empty()
    } else {
        "    "@ + spec_camel(u.members@[i].name@, true) + "("@ + spec_rust_type(
            reg,
            u.members@[i].ctype@,
        ) + "),\n"@ + spec_union_members(reg, u, i + 1)
    }
}

/// The block emitted for one union: a tagged-variant type whose variants
/// are the union's members.
pub open spec fn spec_union_block(reg: Seq<(Seq<char>, Seq<char>)>, u: VppJsApiUnion) -> Seq<
    char,
> {
    "pub enum "@ + upper_camel_of(u.name@) + " {\n"@ + spec_union_members(reg, u, 0) + "}\n\n"@
}

fn push_union_block(reg: &EnumWidthRegistry, u: &VppJsApiUnion, out: &mut String)
    ensures
        final(out)@ == old(out)@ + spec_union_block(reg_entries(*reg), *u),
{
    out.append("pub enum ");
    let name = camelize(u.name.as_str());
    out.append(name.as_str());
    out.append(" {\n");
    let n = u.members.len();
    let mut i: usize = 0;
    while i < n
        invariant
            0 <= i <= n,
            n == u.members@.len(),
            out@ + spec_union_members(reg_entries(*reg), *u, i as int) == old(out)@ + "pub enum "@
                + upper_camel_of(u.name@) + " {\n"@ + spec_union_members(reg_entries(*reg), *u, 0),
        decreases n - i,
    {
        out.append("    ");
        let vname = camelize_ident(u.members[i].name.as_str());
        out.append(vname.as_str());
        out.append("(");
        let vtype = get_rust_type_from_ctype(reg, u.members[i].ctype.as_str());
        out.append(vtype.as_str());
        out.append("),\n");
        assert(out@ + spec_union_members(reg_entries(*reg), *u, i + 1) =~= old(out)@ + "pub enum "@
            + upper_camel_of(u.name@) + " {\n"@ + spec_union_members(reg_entries(*reg), *u, 0));
        i += 1;
    }
    out.append("}\n\n");
    assert(spec_union_members(reg_entries(*reg), *u, n as int) =~= Seq::<char>::empty());
    assert(out@ =~= old(out)@ + spec_union_block(reg_entries(*reg), *u));
}

/// The block emitted for one type alias: a synonym for the mapped type,
/// or for a fixed-size array of it when the alias declares a length.
pub open spec fn spec_alias_block(reg: Seq<(Seq<char>, Seq<char>)>, a: VppJsApiAlias) -> Seq<
    char,
> {
    "pub type "@ + spec_camel(a.name@, true) + " = "@ + (match a.maybe_length {
        Some(n) => "FixedSizeArray<"@ + spec_rust_type(reg, a.ctype@) + ", typenum::U"@ + spec_dec(
            n as nat,
        ) + ">"@,
        None => spec_rust_type(reg, a.ctype@),
    }) + ";\n\n"@
}

fn push_alias_block(reg: &EnumWidthRegistry, a: &VppJsApiAlias, out: &mut String)
    ensures
        final(out)@ == old(out)@ + spec_alias_block(reg_entries(*reg), *a),
{
    out.append("pub type ");
    let name = camelize_ident(a.name.as_str());
    out.append(name.as_str());
    out.append(" = ");
    let base = get_rust_type_from_ctype(reg, a.ctype.as_str());
    match &a.maybe_length {
        Some(n) => {
            out.append("FixedSizeArray<");
            out.append(base.as_str());
            out.append(", typenum::U");
            push_dec(*n, out);
            out.append(">");
        },
        None => {
            out.append(base.as_str());
        },
    }
    out.append(";\n\n");
}

/// The alias blocks of a file, in declaration order.
pub open spec fn spec_alias_blocks(
    reg: Seq<(Seq<char>, Seq<char>)>,
    aliases: Seq<VppJsApiAlias>,
) -> Seq<char>
    decreases aliases.len(),
{
    if aliases.len() == 0 {
        Seq::empty()
    } else {
        spec_alias_block(reg, aliases[0]) + spec_alias_blocks(reg, aliases.drop_first())
    }
}

/// The enum blocks of a file, in declaration order.
pub open spec fn spec_enum_blocks(enums: Seq<VppJsApiEnum>) -> Seq<char>
    decreases enums.len(),
{
    if enums.len() == 0 {
        Seq::empty()
    } else {
        spec_enum_block(enums[0]) + spec_enum_blocks(enums.drop_first())
    }
}

/// The union blocks of a file, in declaration order.
pub open spec fn spec_union_blocks(
    reg: Seq<(Seq<char>, Seq<char>)>,
    unions: Seq<VppJsApiUnion>,
) -> Seq<char>
    decreases unions.len(),
{
    if unions.len() == 0 {
        Seq::empty()
    } else {
        spec_union_block(reg, unions[0]) + spec_union_blocks(reg, unions.drop_first())
    }
}

/// The plain-type blocks of a file, in declaration order.
pub open spec fn spec_type_blocks(
    reg: Seq<(Seq<char>, Seq<char>)>,
    types: Seq<VppJsApiType>,
) -> Seq<char>
    decreases types.len(),
{
    if types.len() == 0 {
        Seq::empty()
    } else {
        spec_type_block(reg, types[0]) + spec_type_blocks(reg, types.drop_first())
    }
}

/// The message blocks of a file, in declaration order.
pub open spec fn spec_message_blocks(
    reg: Seq<(Seq<char>, Seq<char>)>,
    messages: Seq<VppJsApiMessage>,
) -> Seq<char>
    decreases messages.len(),
{
    if messages.len() == 0 {
        Seq::empty()
    } else {
        spec_message_block(reg, messages[0]) + spec_message_blocks(reg, messages.drop_first())
    }
}

/// The whole text emitted for one schema file: a header naming the source
/// path, then aliases, enums, unions, plain types and messages, each group
/// in declaration order.
pub open spec fn spec_file_text(
    reg: Seq<(Seq<char>, Seq<char>)>,
    path: Seq<char>,
    f: VppJsApiFile,
) -> Seq<char> {
    "// api module "@ + path + "\n\n"@ + spec_alias_blocks(reg, f.aliases@) + spec_enum_blocks(
        f.enums@,
    ) + spec_union_blocks(reg, f.unions@) + spec_type_blocks(reg, f.types@) + spec_message_blocks(
        reg,
        f.messages@,
    )
}

/// Emits the generated source text for one schema file against a fully
/// populated enum-width registry.
pub fn emit_file_text(reg: &EnumWidthRegistry, path: &str, f: &VppJsApiFile) -> (r: String)
    ensures
        r@ == spec_file_text(reg_entries(*reg), path@, *f),
{
    let mut out = String::new();
    out.append("// api module ");
    out.append(path);
    out.append("\n\n");
    let ghost header = "// api module "@ + path@ + "\n\n"@;
    let n_aliases = f.aliases.len();
    let mut i: usize = 0;
    proof {
        assert(f.aliases@.subrange(0, n_aliases as int) =~= f.aliases@);
    }
    while i < n_aliases
        invariant
            0 <= i <= n_aliases,
            n_aliases == f.aliases@.len(),
            out@ + spec_alias_blocks(reg_entries(*reg), f.aliases@.subrange(
                i as int,
                n_aliases as int,
            )) == header + spec_alias_blocks(reg_entries(*reg), f.aliases@),
        decreases n_aliases - i,
    {
        let ghost rem = f.aliases@.subrange(i as int, n_aliases as int);
        assert(rem.drop_first() =~= f.aliases@.subrange(i + 1, n_aliases as int));
        push_alias_block(reg, &f.aliases[i], &mut out);
        assert(out@ + spec_alias_blocks(reg_entries(*reg), f.aliases@.subrange(
            i + 1,
            n_aliases as int,
        )) =~= header + spec_alias_blocks(reg_entries(*reg), f.aliases@));
        i += 1;
    }
    proof {
        assert(spec_alias_blocks(reg_entries(*reg), f.aliases@.subrange(
            n_aliases as int,
            n_aliases as int,
        )) =~= Seq::<char>::empty());
        assert(out@ =~= header + spec_alias_blocks(reg_entries(*reg), f.aliases@));
    }
    let ghost base1 = header + spec_alias_blocks(reg_entries(*reg), f.aliases@);
    let n_enums = f.enums.len();
    let mut i: usize = 0;
    proof {
        assert(f.enums@.subrange(0, n_enums as int) =~= f.enums@);
    }
    while i < n_enums
        invariant
            0 <= i <= n_enums,
            n_enums == f.enums@.len(),
            out@ + spec_enum_blocks(f.enums@.subrange(i as int, n_enums as int)) == base1
                + spec_enum_blocks(f.enums@),
        decreases n_enums - i,
    {
        let ghost rem = f.enums@.subrange(i as int, n_enums as int);
        assert(rem.drop_first() =~= f.enums@.subrange(i + 1, n_enums as int));
        push_enum_block(&f.enums[i], &mut out);
        assert(out@ + spec_enum_blocks(f.enums@.subrange(i + 1, n_enums as int)) =~= base1
            + spec_enum_blocks(f.enums@));
        i += 1;
    }
    proof {
        assert(spec_enum_blocks(f.enums@.subrange(n_enums as int, n_enums as int))
            =~= Seq::<char>::empty());
        assert(out@ =~= base1 + spec_enum_blocks(f.enums@));
    }
    let ghost base2 = base1 + spec_enum_blocks(f.enums@);
    let n_unions = f.unions.len();
    let mut i: usize = 0;
    proof {
        assert(f.unions@.subrange(0, n_unions as int) =~= f.unions@);
    }
    while i < n_unions
        invariant
            0 <= i <= n_unions,
            n_unions == f.unions@.len(),
            out@ + spec_union_blocks(reg_entries(*reg), f.unions@.subrange(
                i as int,
                n_unions as int,
            )) == base2 + spec_union_blocks(reg_entries(*reg), f.unions@),
        decreases n_unions - i,
    {
        let ghost rem = f.unions@.subrange(i as int, n_unions as int);
        assert(rem.drop_first() =~= f.unions@.subrange(i + 1, n_unions as int));
        push_union_block(reg, &f.unions[i], &mut out);
        assert(out@ + spec_union_blocks(reg_entries(*reg), f.unions@.subrange(
            i + 1,
            n_unions as int,
        )) =~= base2 + spec_union_blocks(reg_entries(*reg), f.unions@));
        i += 1;
    }
    proof {
        assert(spec_union_blocks(reg_entries(*reg), f.unions@.subrange(
            n_unions as int,
            n_unions as int,
        )) =~= Seq::<char>::empty());
        assert(out@ =~= base2 + spec_union_blocks(reg_entries(*reg), f.unions@));
    }
    let ghost base3 = base2 + spec_union_blocks(reg_entries(*reg), f.unions@);
    let n_types = f.types.len();
    let mut i: usize = 0;
    proof {
        assert(f.types@.subrange(0, n_types as int) =~= f.types@);
    }
    while i < n_types
        invariant
            0 <= i <= n_types,
            n_types == f.types@.len(),
            out@ + spec_type_blocks(reg_entries(*reg), f.types@.subrange(i as int, n_types as int))
                == base3 + spec_type_blocks(reg_entries(*reg), f.types@),
        decreases n_types - i,
    {
        let ghost rem = f.types@.subrange(i as int, n_types as int);
        assert(rem.drop_first() =~= f.types@.subrange(i + 1, n_types as int));
        push_type_block(reg, &f.types[i], &mut out);
        assert(out@ + spec_type_blocks(reg_entries(*reg), f.types@.subrange(i + 1, n_types as int))
            =~= base3 + spec_type_blocks(reg_entries(*reg), f.types@));
        i += 1;
    }
    proof {
        assert(spec_type_blocks(reg_entries(*reg), f.types@.subrange(n_types as int, n_types as int))
            =~= Seq::<char>::empty());
        assert(out@ =~= base3 + spec_type_blocks(reg_entries(*reg), f.types@));
    }
    let ghost base4 = base3 + spec_type_blocks(reg_entries(*reg), f.types@);
    let n_msgs = f.messages.len();
    let mut i: usize = 0;
    proof {
        assert(f.messages@.subrange(0, n_msgs as int) =~= f.messages@);
    }
    while i < n_msgs
        invariant
            0 <= i <= n_msgs,
            n_msgs == f.messages@.len(),
            out@ + spec_message_blocks(reg_entries(*reg), f.messages@.subrange(
                i as int,
                n_msgs as int,
            )) == base4 + spec_message_blocks(reg_entries(*reg), f.messages@),
        decreases n_msgs - i,
    {
        let ghost rem = f.messages@.subrange(i as int, n_msgs as int);
        assert(rem.drop_first() =~= f.messages@.subrange(i + 1, n_msgs as int));
        push_message_block(reg, &f.messages[i], &mut out);
        assert(out@ + spec_message_blocks(reg_entries(*reg), f.messages@.subrange(
            i + 1,
            n_msgs as int,
        )) =~= base4 + spec_message_blocks(reg_entries(*reg), f.messages@));
        i += 1;
    }
    proof {
        assert(spec_message_blocks(reg_entries(*reg), f.messages@.subrange(
            n_msgs as int,
            n_msgs as int,
        )) =~= Seq::<char>::empty());
        assert(out@ =~= spec_file_text(reg_entries(*reg), path@, *f));
    }
    out
}

/// A path character kept in a module name: ASCII letters and digits stay,
/// everything else becomes an underscore.
pub open spec fn spec_module_char(c: char) -> char {
    if ('a' <= c && c <= 'z') || ('A' <= c && c <= 'Z') || ('0' <= c && c <= '9') {
        c
    } else {
        '_'
    }
}

/// The synthetic module name derived from a source path.
pub open spec fn spec_module_name(s: Seq<char>) -> Seq<char>
    decreases s.len(),
{
    if s.len() == 0 {
        Seq::empty()
    } else {
        seq![spec_module_char(s[0])] + spec_module_name(s.drop_first())
    }
}

/// Derives a module name from a source path by keeping letters and digits
/// and turning every other character into an underscore.
pub fn module_name_of_path(path: &str) -> (r: String)
    ensures
        r@ == spec_module_name(path@),
{
    let len = path.unicode_len();
    let mut out = String::new();
    let mut i: usize = 0;
    proof {
        assert(path@.subrange(0, len as int) =~= path@);
    }
    while i < len
        invariant
            0 <= i <= len,
            len == path@.len(),
            out@ + spec_module_name(path@.subrange(i as int, len as int)) == spec_module_name(
                path@,
            ),
        decreases len - i,
    {
        let ghost rem = path@.subrange(i as int, len as int);
        assert(rem.drop_first() =~= path@.subrange(i + 1, len as int));
        let c = path.get_char(i);
        let keep = ('a' <= c && c <= 'z') || ('A' <= c && c <= 'Z') || ('0' <= c && c <= '9');
        if keep {
            out.push(c);
        } else {
            out.push('_');
        }
        assert(out@ + spec_module_name(path@.subrange(i + 1, len as int)) =~= spec_module_name(
            path@,
        ));
        i += 1;
    }
    assert(spec_module_name(path@.subrange(len as int, len as int)) =~= Seq::<char>::empty());
    assert(out@ + Seq::<char>::empty() =~= out@);
    out
}

/// The relative path a schema file's generated module is written to.
pub open spec fn spec_unit_path(path: Seq<char>) -> Seq<char> {
    "src/"@ + spec_module_name(path) + ".rs"@
}

/// Emits the generated unit for one schema file: its module text under its
/// derived relative path.
pub fn emit_file_unit(reg: &EnumWidthRegistry, path: &str, f: &VppJsApiFile) -> (r: GeneratedUnit)
    ensures
        r.path@ == spec_unit_path(path@),
        r.text@ == spec_file_text(reg_entries(*reg), path@, *f),
{
    let mut p = String::from_str("src/");
    let m = module_name_of_path(path);
    p.append(m.as_str());
    p.append(".rs");
    let text = emit_file_text(reg, path, f);
    GeneratedUnit { path: p, text }
}

/// Round trip: feeding the emitter one schema file and one registry twice
/// yields byte-identical generated text both times — the emitted text is a
/// function of the two inputs and of nothing else.
pub proof fn lemma_emission_deterministic(
    reg: Seq<(Seq<char>, Seq<char>)>,
    path: Seq<char>,
    f: VppJsApiFile,
    t1: Seq<char>,
    t2: Seq<char>,
)
    requires
        t1 == spec_file_text(reg, path, f),
        t2 == spec_file_text(reg, path, f),
    ensures
        t1 == t2,
{
}

/// The stable (name, CRC) identifiers of a file's messages, in order.
pub open spec fn spec_msg_idents(ms: Seq<VppJsApiMessage>) -> Seq<Seq<char>>
    decreases ms.len(),
{
    if ms.len() == 0 {
        Seq::empty()
    } else {
        seq![spec_msg_ident(ms[0])] + spec_msg_idents(ms.drop_first())
    }
}

/// Lists every message identifier of a schema file, for diagnostic
/// listings of the corpus.
pub fn message_identifiers(f: &VppJsApiFile) -> (r: Vec<String>)
    ensures
        r@.map_values(|s: String| s@) == spec_msg_idents(f.messages@),
{
    let mut out: Vec<String> = Vec::new();
    let n = f.messages.len();
    let mut i: usize = 0;
    proof {
        assert(f.messages@.subrange(0, n as int) =~= f.messages@);
        assert(out@.map_values(|s: String| s@) =~= Seq::<Seq<char>>::empty());
    }
    while i < n
        invariant
            0 <= i <= n,
            n == f.messages@.len(),
            out@.map_values(|s: String| s@) + spec_msg_idents(
                f.messages@.subrange(i as int, n as int),
            ) == spec_msg_idents(f.messages@),
        decreases n - i,
    {
        let ghost rem = f.messages@.subrange(i as int, n as int);
        assert(rem.drop_first() =~= f.messages@.subrange(i + 1, n as int));
        let mut ident = String::new();
        push_msg_ident(&f.messages[i], &mut ident);
        assert(ident@ == spec_msg_ident(f.messages@[i as int]));
        out.push(ident);
        assert(out@.map_values(|s: String| s@) =~= out@.drop_last().map_values(
            |s: String| s@,
        ).push(spec_msg_ident(rem[0])));
        assert(out@.map_values(|s: String| s@) + spec_msg_idents(
            f.messages@.subrange(i + 1, n as int),
        ) =~= spec_msg_idents(f.messages@));
        i += 1;
    }
    proof {
        assert(spec_msg_idents(f.messages@.subrange(n as int, n as int)) =~= Seq::<Seq<char>>::empty());
        assert(out@.map_values(|s: String| s@) + Seq::<Seq<char>>::empty() =~= out@.map_values(
            |s: String| s@,
        ));
    }
    out
}

} // verus!
