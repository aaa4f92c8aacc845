//! The identifier and type mapper: pure transforms from wire-level type and
//! field names to generated-language identifiers and container types, and
//! the registry of enum backing widths that sized-enum mapping consults.
//!
//! All transforms are total: a descriptor that fits no rule passes through
//! unchanged, so generation stays best-effort.

use vstd::prelude::*;
use crate::schema::{VppJsApiFieldSize, VppJsApiMessageFieldDef};
use crate::strutil::{
    camelize, camelize_ident, spec_camel, str_ends_with, str_eq, str_starts_with, u64_to_dec,
    spec_dec, upper_camel_of,
};
use vstd::string::{StrSliceExecFns, StringExecFns};

verus! {

/// The registry from generated enum type name to the wire name of its
/// backing integer width.  Keys are unique; a later insert for the same
/// key replaces the value in place.
pub struct EnumWidthRegistry {
    entries: Vec<(String, String)>,
}

/// The entries of a registry as (key, value) character sequences.
pub closed spec fn reg_entries(reg: EnumWidthRegistry) -> Seq<(Seq<char>, Seq<char>)> {
    reg.entries@.map_values(|p: (String, String)| (p.0@, p.1@))
}

/// The first value registered under a key, if any.
pub open spec fn spec_reg_lookup(entries: Seq<(Seq<char>, Seq<char>)>, k: Seq<char>) -> Option<
    Seq<char>,
>
    decreases entries.len(),
{
    if entries.len() == 0 {
        None
    } else if entries[0].0 == k {
        Some(entries[0].1)
    } else {
        spec_reg_lookup(entries.drop_first(), k)
    }
}

/// A sequence of entries with a new binding worked in: an existing key has
/// its value replaced in place, a new key is appended.
pub open spec fn spec_reg_insert(
    entries: Seq<(Seq<char>, Seq<char>)>,
    k: Seq<char>,
    v: Seq<char>,
) -> Seq<(Seq<char>, Seq<char>)>
    decreases entries.len(),
{
    if entries.len() == 0 {
        seq![(k, v)]
    } else if entries[0].0 == k {
        seq![(k, v)] + entries.drop_first()
    } else {
        seq![entries[0]] + spec_reg_insert(entries.drop_first(), k, v)
    }
}

impl EnumWidthRegistry {
    /// An empty registry.
    pub fn new() -> (r: EnumWidthRegistry)
        ensures
            reg_entries(r) == Seq::<(Seq<char>, Seq<char>)>::empty(),
    {
        let r = EnumWidthRegistry { entries: Vec::new() };
        proof {
            assert(reg_entries(r) =~= Seq::<(Seq<char>, Seq<char>)>::empty());
        }
        r
    }

    /// Records the backing width for a generated enum name.
    pub fn insert(&mut self, name: String, container: String)
        ensures
            reg_entries(*final(self)) == spec_reg_insert(
                reg_entries(*old(self)),
                name@,
                container@,
            ),
    {
        let ghost entries0 = reg_entries(*old(self));
        let n = self.entries.len();
        let mut i: usize = 0;
        proof {
            assert(entries0.len() == n);
        }
        while i < n
            invariant
                0 <= i <= n,
                n == self.entries@.len(),
                entries0.len() == n,
                *self == *old(self),
                entries0 == reg_entries(*self),
                forall|j: int| 0 <= j < i ==> entries0[j].0 != name@,
            decreases n - i,
        {
            assert(entries0[i as int] == (self.entries@[i as int].0@, self.entries@[i as int].1@));
            if str_eq(self.entries[i].0.as_str(), name.as_str()) {
                assert(entries0[i as int].0 == name@);
                self.entries.set(i, (name, container));
                proof {
                    lemma_reg_insert_at(entries0, name@, container@, i as int);
                    assert(reg_entries(*self) =~= spec_reg_insert(entries0, name@, container@));
                }
                return;
            }
            i += 1;
        }
        self.entries.push((name, container));
        proof {
            lemma_reg_insert_fresh(entries0, name@, container@);
            assert(reg_entries(*self) =~= spec_reg_insert(entries0, name@, container@));
        }
    }

    /// Looks up the backing width registered for a generated enum name.
    pub fn get(&self, name: &str) -> (r: Option<String>)
        ensures
            match r {
                Some(c) => spec_reg_lookup(reg_entries(*self), name@) == Some(c@),
                None => spec_reg_lookup(reg_entries(*self), name@) is None,
            },
    {
        let ghost entries0 = reg_entries(*self);
        let n = self.entries.len();
        let mut i: usize = 0;
        proof {
            assert(entries0.subrange(0, n as int) =~= entries0);
        }
        while i < n
            invariant
                0 <= i <= n,
                n == self.entries@.len(),
                entries0.len() == n,
                entries0 == reg_entries(*self),
                forall|j: int| 0 <= j < i ==> entries0[j].0 != name@,
                spec_reg_lookup(entries0, name@) == spec_reg_lookup(
                    entries0.subrange(i as int, n as int),
                    name@,
                ),
            decreases n - i,
        {
            let ghost rem = entries0.subrange(i as int, n as int);
            assert(rem.drop_first() =~= entries0.subrange(i + 1, n as int));
            assert(entries0[i as int] == (self.entries@[i as int].0@, self.entries@[i as int].1@));
            if str_eq(self.entries[i].0.as_str(), name) {
                assert(rem[0].0 == name@);
                return Some(self.entries[i].1.clone());
            }
            assert(rem[0].0 != name@);
            i += 1;
        }
        assert(entries0.subrange(n as int, n as int) =~= Seq::<(Seq<char>, Seq<char>)>::empty());
        None
    }

    /// Whether a backing width is registered for the name.
    pub fn contains(&self, name: &str) -> (r: bool)
        ensures
            r == (spec_reg_lookup(reg_entries(*self), name@) is Some),
    {
        match self.get(name) {
            Some(_) => true,
            None => false,
        }
    }
}

proof fn lemma_reg_insert_at(
    entries: Seq<(Seq<char>, Seq<char>)>,
    k: Seq<char>,
    v: Seq<char>,
    i: int,
)
    requires
        0 <= i < entries.len(),
        entries[i].0 == k,
        forall|j: int| 0 <= j < i ==> entries[j].0 != k,
    ensures
        spec_reg_insert(entries, k, v) == entries.update(i, (k, v)),
    decreases i,
{
    if i == 0 {
        assert(spec_reg_insert(entries, k, v) =~= entries.update(0, (k, v)));
    } else {
        lemma_reg_insert_at(entries.drop_first(), k, v, i - 1);
        assert(entries.drop_first().update(i - 1, (k, v)) =~= entries.update(
            i,
            (k, v),
        ).drop_first());
        assert(spec_reg_insert(entries, k, v) =~= entries.update(i, (k, v)));
    }
}

proof fn lemma_reg_insert_fresh(entries: Seq<(Seq<char>, Seq<char>)>, k: Seq<char>, v: Seq<char>)
    requires
        forall|j: int| 0 <= j < entries.len() ==> entries[j].0 != k,
    ensures
        spec_reg_insert(entries, k, v) == entries.push((k, v)),
    decreases entries.len(),
{
    if entries.len() == 0 {
        assert(spec_reg_insert(entries, k, v) =~= entries.push((k, v)));
    } else {
        lemma_reg_insert_fresh(entries.drop_first(), k, v);
        assert(seq![entries[0]] + entries.drop_first().push((k, v)) =~= entries.push((k, v)));
    }
}

/// Looking a key up right after it was recorded yields the new value.
pub proof fn lemma_lookup_insert_same(
    entries: Seq<(Seq<char>, Seq<char>)>,
    k: Seq<char>,
    v: Seq<char>,
)
    ensures
        spec_reg_lookup(spec_reg_insert(entries, k, v), k) == Some(v),
    decreases entries.len(),
{
    if entries.len() == 0 {
        assert(spec_reg_insert(entries, k, v)[0] == (k, v));
    } else if entries[0].0 == k {
        assert(spec_reg_insert(entries, k, v)[0] == (k, v));
    } else {
        lemma_lookup_insert_same(entries.drop_first(), k, v);
        let out = spec_reg_insert(entries, k, v);
        assert(out[0] == entries[0]);
        assert(out.drop_first() =~= spec_reg_insert(entries.drop_first(), k, v));
    }
}

/// Recording one key leaves the lookup of every other key unchanged.
pub proof fn lemma_lookup_insert_other(
    entries: Seq<(Seq<char>, Seq<char>)>,
    k: Seq<char>,
    v: Seq<char>,
    k2: Seq<char>,
)
    requires
        k2 != k,
    ensures
        spec_reg_lookup(spec_reg_insert(entries, k, v), k2) == spec_reg_lookup(entries, k2),
    decreases entries.len(),
{
    if entries.len() == 0 {
        let out = spec_reg_insert(entries, k, v);
        assert(out.len() == 1);
        assert(out[0] == (k, v));
        assert(out.drop_first() =~= Seq::<(Seq<char>, Seq<char>)>::empty());
        assert(spec_reg_lookup(out, k2) == spec_reg_lookup(out.drop_first(), k2));
    } else if entries[0].0 == k {
        let out = spec_reg_insert(entries, k, v);
        assert(out.len() == entries.len());
        assert(out[0] == (k, v));
        assert(out.drop_first() =~= entries.drop_first());
        assert(spec_reg_lookup(out, k2) == spec_reg_lookup(out.drop_first(), k2));
        assert(spec_reg_lookup(entries, k2) == spec_reg_lookup(entries.drop_first(), k2));
    } else {
        lemma_lookup_insert_other(entries.drop_first(), k, v, k2);
        let out = spec_reg_insert(entries, k, v);
        assert(out.len() == spec_reg_insert(entries.drop_first(), k, v).len() + 1);
        assert(out[0] == entries[0]);
        assert(out.drop_first() =~= spec_reg_insert(entries.drop_first(), k, v));
        if entries[0].0 == k2 {
            assert(spec_reg_lookup(out, k2) == Some(out[0].1));
        } else {
            assert(spec_reg_lookup(out, k2) == spec_reg_lookup(out.drop_first(), k2));
            assert(spec_reg_lookup(entries, k2) == spec_reg_lookup(entries.drop_first(), k2));
        }
    }
}

/// A field without a size descriptor whose resolved base type has a
/// registered backing width maps to the sized-enum container carrying
/// exactly that type and that width, whatever else the registry holds.
pub proof fn lemma_sized_enum_mapping(
    reg: Seq<(Seq<char>, Seq<char>)>,
    fld: VppJsApiMessageFieldDef,
)
    requires
        fld.maybe_size is None,
        spec_reg_lookup(reg, spec_base_type(fld.ctype@)) is Some,
    ensures
        spec_rust_field_type(reg, fld) == "SizedEnum<"@ + spec_base_type(fld.ctype@) + ", "@
            + spec_reg_lookup(reg, spec_base_type(fld.ctype@))->Some_0 + ">"@,
{
}

/// Whether a wire type name carries the structural custom-type prefix.
pub open spec fn has_api_prefix(s: Seq<char>) -> bool {
    "vl_api_"@.len() <= s.len() && s.subrange(0, "vl_api_"@.len() as int) == "vl_api_"@
}

/// The name with one structural prefix removed, and one structural suffix
/// removed if present.
pub open spec fn spec_strip_affixes(s: Seq<char>) -> Seq<char>
    recommends
        has_api_prefix(s),
{
    let rest = s.subrange("vl_api_"@.len() as int, s.len() as int);
    if "_t"@.len() <= rest.len() && rest.subrange(rest.len() - "_t"@.len(), rest.len() as int)
        == "_t"@ {
        rest.subrange(0, rest.len() - "_t"@.len())
    } else {
        rest
    }
}

/// What `get_type` yields: structural custom types are stripped of their
/// affixes and upper-camel-cased segment by segment, the primitive string
/// type maps to the generic text container name, and every other token
/// passes through unchanged.
pub open spec fn spec_get_type(s: Seq<char>) -> Seq<char> {
    if has_api_prefix(s) {
        spec_camel(spec_strip_affixes(s), true)
    } else if s == "string"@ {
        "String"@
    } else {
        s
    }
}

/// Maps a wire type name to its generated type identifier.
pub fn get_type(apitype: &str) -> (r: String)
    ensures
        r@ == spec_get_type(apitype@),
{
    if str_starts_with(apitype, "vl_api_") {
        proof {
            reveal_strlit("vl_api_");
        }
        let len = apitype.unicode_len();
        let rest = apitype.substring_char(7, len);
        if str_ends_with(rest, "_t") {
            proof {
                reveal_strlit("_t");
            }
            let stripped = rest.substring_char(0, rest.unicode_len() - 2);
            camelize_ident(stripped)
        } else {
            camelize_ident(rest)
        }
    } else if str_eq(apitype, "string") {
        String::from_str("String")
    } else {
        String::from_str(apitype)
    }
}

/// What `get_ident` yields: the two reserved tokens map to their fixed
/// substitutes, a single leading underscore is stripped, and everything
/// else passes through.
pub open spec fn spec_get_ident(s: Seq<char>) -> Seq<char> {
    if s == "type"@ {
        "typ"@
    } else if s == "match"@ {
        "mach"@
    } else if s.len() >= 1 && s[0] == '_' {
        s.drop_first()
    } else {
        s
    }
}

/// Maps a wire field name to a generated field identifier that avoids the
/// target language's reserved words.
pub fn get_ident(api_ident: &str) -> (r: String)
    ensures
        r@ == spec_get_ident(api_ident@),
{
    if str_eq(api_ident, "type") {
        String::from_str("typ")
    } else if str_eq(api_ident, "match") {
        String::from_str("mach")
    } else {
        let len = api_ident.unicode_len();
        if len >= 1 && api_ident.get_char(0) == '_' {
            let rest = api_ident.substring_char(1, len);
            assert(rest@ =~= api_ident@.drop_first());
            String::from_str(rest)
        } else {
            String::from_str(api_ident)
        }
    }
}

/// What `get_rust_field_name` yields: the two reserved tokens become raw
/// identifiers, everything else passes through.
pub open spec fn spec_get_rust_field_name(s: Seq<char>) -> Seq<char> {
    if s == "type"@ || s == "match"@ {
        "r#"@ + s
    } else {
        s
    }
}

/// Maps a wire field name to a generated field name, keeping reserved
/// words by escaping them rather than renaming them.
pub fn get_rust_field_name(name: &str) -> (r: String)
    ensures
        r@ == spec_get_rust_field_name(name@),
{
    if str_eq(name, "type") || str_eq(name, "match") {
        let mut out = String::from_str("r#");
        out.append(name);
        out
    } else {
        String::from_str(name)
    }
}

/// The resolved base type of a wire type name, following the same
/// resolution rules as the type-identifier mapping: affixes stripped and
/// upper-camel-cased (here by the general case converter) for structural
/// custom types, the generic text container name for the primitive
/// string type, pass-through for every other token.
pub open spec fn spec_base_type(s: Seq<char>) -> Seq<char> {
    if has_api_prefix(s) {
        upper_camel_of(spec_strip_affixes(s))
    } else if s == "string"@ {
        "String"@
    } else {
        s
    }
}

/// What `get_rust_type_from_ctype` yields: the resolved base type, wrapped
/// as a sized enum exactly when the registry knows a backing width for it.
pub open spec fn spec_rust_type(reg: Seq<(Seq<char>, Seq<char>)>, s: Seq<char>) -> Seq<char> {
    let base = spec_base_type(s);
    match spec_reg_lookup(reg, base) {
        Some(container) => "SizedEnum<"@ + base + ", "@ + container + ">"@,
        None => base,
    }
}

/// Maps a wire type name to the generated container type, wrapping enum
/// types with their registered backing width so that serialization knows
/// the wire width to use.
pub fn get_rust_type_from_ctype(enum_containers: &EnumWidthRegistry, ctype: &str) -> (r: String)
    ensures
        r@ == spec_rust_type(reg_entries(*enum_containers), ctype@),
{
    let rtype: String = if str_starts_with(ctype, "vl_api_") {
        proof {
            reveal_strlit("vl_api_");
        }
        let len = ctype.unicode_len();
        let rest = ctype.substring_char(7, len);
        if str_ends_with(rest, "_t") {
            proof {
                reveal_strlit("_t");
            }
            camelize(rest.substring_char(0, rest.unicode_len() - 2))
        } else {
            camelize(rest)
        }
    } else if str_eq(ctype, "string") {
        String::from_str("String")
    } else {
        String::from_str(ctype)
    };
    match enum_containers.get(rtype.as_str()) {
        Some(container) => {
            let mut out = String::from_str("SizedEnum<");
            out.append(rtype.as_str());
            out.append(", ");
            out.append(container.as_str());
            out.append(">");
            out
        },
        None => rtype,
    }
}

/// What `get_rust_field_type` yields for each shape of size descriptor.
pub open spec fn spec_rust_field_type(
    reg: Seq<(Seq<char>, Seq<char>)>,
    fld: VppJsApiMessageFieldDef,
) -> Seq<char> {
    let base = spec_rust_type(reg, fld.ctype@);
    match fld.maybe_size {
        Some(VppJsApiFieldSize::Variable(_)) => {
            if fld.ctype@ == "string"@ {
                "VariableSizeString"@
            } else {
                "VariableSizeArray<"@ + base + ">"@
            }
        },
        Some(VppJsApiFieldSize::Fixed(n)) => {
            if fld.ctype@ == "string"@ {
                "FixedSizeString<typenum::U"@ + spec_dec(n as nat) + ">"@
            } else {
                "FixedSizeArray<"@ + base + ", typenum::U"@ + spec_dec(n as nat) + ">"@
            }
        },
        None => base,
    }
}

/// Maps one field descriptor to its full generated container type: plain
/// variable arrays, variable-size strings, fixed-size arrays and strings
/// with their compile-time length, or the (possibly sized-enum wrapped)
/// base type when no size descriptor is present.  A legal-value options
/// annotation never changes the type.
pub fn get_rust_field_type(
    enum_containers: &EnumWidthRegistry,
    fld: &VppJsApiMessageFieldDef,
    _is_last: bool,
) -> (r: String)
    ensures
        r@ == spec_rust_field_type(reg_entries(*enum_containers), *fld),
{
    let rtype = get_rust_type_from_ctype(enum_containers, fld.ctype.as_str());
    match &fld.maybe_size {
        Some(size) => {
            match size {
                VppJsApiFieldSize::Variable(_max_var) => {
                    if str_eq(fld.ctype.as_str(), "string") {
                        String::from_str("VariableSizeString")
                    } else {
                        let mut out = String::from_str("VariableSizeArray<");
                        out.append(rtype.as_str());
                        out.append(">");
                        out
                    }
                },
                VppJsApiFieldSize::Fixed(maxsz) => {
                    if str_eq(fld.ctype.as_str(), "string") {
                        let mut out = String::from_str("FixedSizeString<typenum::U");
                        let dec = u64_to_dec(*maxsz);
                        out.append(dec.as_str());
                        out.append(">");
                        out
                    } else {
                        let mut out = String::from_str("FixedSizeArray<");
                        out.append(rtype.as_str());
                        out.append(", typenum::U");
                        let dec = u64_to_dec(*maxsz);
                        out.append(dec.as_str());
                        out.append(">");
                        out
                    }
                },
            }
        },
        None => rtype,
    }
}

/// For every wire type name that begins with the structural prefix and
/// ends with the structural suffix, the type mapping removes exactly one
/// occurrence of each and upper-camel-cases the remainder.
pub proof fn lemma_map_type_identifier(s: Seq<char>)
    requires
        "vl_api_"@.len() <= s.len(),
        s.subrange(0, "vl_api_"@.len() as int) == "vl_api_"@,
        "_t"@.len() <= s.len() - "vl_api_"@.len(),
        s.subrange(s.len() - "_t"@.len(), s.len() as int) == "_t"@,
    ensures
        spec_get_type(s) == spec_camel(
            s.subrange("vl_api_"@.len() as int, s.len() - "_t"@.len()),
            true,
        ),
{
    let plen = "vl_api_"@.len() as int;
    let tlen = "_t"@.len() as int;
    let rest = s.subrange(plen, s.len() as int);
    assert(rest.subrange(rest.len() - tlen, rest.len() as int) =~= s.subrange(
        s.len() - tlen,
        s.len() as int,
    ));
    assert(rest.subrange(0, rest.len() - tlen) =~= s.subrange(plen, s.len() - tlen));
}

/// A field whose wire type is the primitive string maps to the
/// variable-size string container under a variable size descriptor, and
/// to the fixed-size string container carrying the compile-time length
/// under a fixed one.
pub proof fn lemma_string_field_mapping(
    reg: Seq<(Seq<char>, Seq<char>)>,
    fld: VppJsApiMessageFieldDef,
)
    requires
        fld.ctype@ == "string"@,
    ensures
        (fld.maybe_size matches Some(VppJsApiFieldSize::Variable(_)) ==> spec_rust_field_type(
            reg,
            fld,
        ) == "VariableSizeString"@),
        (fld.maybe_size matches Some(VppJsApiFieldSize::Fixed(n)) ==> spec_rust_field_type(
            reg,
            fld,
        ) == "FixedSizeString<typenum::U"@ + spec_dec(n as nat) + ">"@),
        fld.maybe_size is None && spec_reg_lookup(reg, "String"@) is None
            ==> spec_rust_field_type(reg, fld) == "String"@,
{
    reveal_strlit("string");
    reveal_strlit("vl_api_");
    assert(!has_api_prefix("string"@)) by {
        assert("string"@.len() == 6);
        assert("vl_api_"@.len() == 7);
    }
}

} // verus!
