//! The package assembler's planning: the full-corpus enum-width pre-pass,
//! the types-then-rest binding plan, and the package scaffolding plan
//! (directory layout, aggregating module, manifest, template
//! instantiation).  Everything here computes plain values; writing them to
//! the filesystem is the caller's concern.

use vstd::prelude::*;
use crate::loader::{map_entries, ApiFileMap};
use crate::mapper::{reg_entries, spec_reg_insert, spec_reg_lookup, EnumWidthRegistry};
use crate::schema::{VppJsApiEnum, VppJsApiFile};
use crate::emitter::{emit_file_unit, module_name_of_path, spec_file_text, spec_module_name, spec_unit_path, GeneratedUnit};
use crate::strutil::{camelize, upper_camel_of};
use crate::util::{
    import_count, lemma_merge_sort_len, spec_merge, spec_merge_sort, ImportsFiles,
};
use vstd::string::StringExecFns;

verus! {

/// The registry after one file's enums are recorded, left to right.
pub open spec fn spec_reg_fold_enums(
    acc: Seq<(Seq<char>, Seq<char>)>,
    enums: Seq<VppJsApiEnum>,
) -> Seq<(Seq<char>, Seq<char>)>
    decreases enums.len(),
{
    if enums.len() == 0 {
        acc
    } else {
        spec_reg_fold_enums(
            spec_reg_insert(acc, upper_camel_of(enums[0].name@), enums[0].enumtype@),
            enums.drop_first(),
        )
    }
}

/// The registry after every file's enums are recorded, in load order.
pub open spec fn spec_reg_fold_files(
    acc: Seq<(Seq<char>, Seq<char>)>,
    files: Seq<(Seq<char>, VppJsApiFile)>,
) -> Seq<(Seq<char>, Seq<char>)>
    decreases files.len(),
{
    if files.len() == 0 {
        acc
    } else {
        spec_reg_fold_files(spec_reg_fold_enums(acc, files[0].1.enums@), files.drop_first())
    }
}

/// Scans every enum of every loaded file and records its backing width
/// under its generated type name.  This full pre-pass runs before any
/// field is mapped, so a field referencing an enum finds its width no
/// matter where the enum was declared.
pub fn build_enum_registry(map: &ApiFileMap) -> (r: EnumWidthRegistry)
    ensures
        reg_entries(r) == spec_reg_fold_files(
            Seq::<(Seq<char>, Seq<char>)>::empty(),
            map_entries(*map),
        ),
{
    let mut reg = EnumWidthRegistry::new();
    let n = map.len();
    let ghost all = map_entries(*map);
    let mut i: usize = 0;
    proof {
        assert(all.subrange(0, n as int) =~= all);
    }
    while i < n
        invariant
            0 <= i <= n,
            n == map_entries(*map).len(),
            all == map_entries(*map),
            spec_reg_fold_files(Seq::<(Seq<char>, Seq<char>)>::empty(), all)
                == spec_reg_fold_files(reg_entries(reg), all.subrange(i as int, n as int)),
        decreases n - i,
    {
        let ghost rem = all.subrange(i as int, n as int);
        assert(rem.drop_first() =~= all.subrange(i + 1, n as int));
        let f = map.file_at(i);
        assert(rem[0].1 == *f);
        let m = f.enums.len();
        let mut j: usize = 0;
        let ghost reg0 = reg_entries(reg);
        proof {
            assert(f.enums@.subrange(0, m as int) =~= f.enums@);
        }
        while j < m
            invariant
                0 <= j <= m,
                m == f.enums@.len(),
                spec_reg_fold_enums(reg_entries(reg), f.enums@.subrange(j as int, m as int))
                    == spec_reg_fold_enums(reg0, f.enums@),
            decreases m - j,
        {
            let ghost erem = f.enums@.subrange(j as int, m as int);
            assert(erem.drop_first() =~= f.enums@.subrange(j + 1, m as int));
            assert(erem[0] == f.enums@[j as int]);
            let key = camelize(f.enums[j].name.as_str());
            let width = f.enums[j].enumtype.clone();
            reg.insert(key, width);
            j += 1;
        }
        proof {
            assert(f.enums@.subrange(m as int, m as int) =~= Seq::<VppJsApiEnum>::empty());
            assert(reg_entries(reg) == spec_reg_fold_enums(reg0, f.enums@));
        }
        i += 1;
    }
    proof {
        assert(all.subrange(n as int, n as int) =~= Seq::<(Seq<char>, VppJsApiFile)>::empty());
    }
    reg
}

/// The registry key one enum is recorded under.
pub open spec fn enum_key(e: VppJsApiEnum) -> Seq<char> {
    upper_camel_of(e.name@)
}

proof fn lemma_fold_enums_other(
    acc: Seq<(Seq<char>, Seq<char>)>,
    enums: Seq<VppJsApiEnum>,
    k: Seq<char>,
)
    requires
        forall|j: int| 0 <= j < enums.len() ==> enum_key(#[trigger] enums[j]) != k,
    ensures
        spec_reg_lookup(spec_reg_fold_enums(acc, enums), k) == spec_reg_lookup(acc, k),
    decreases enums.len(),
{
    if enums.len() == 0 {
    } else {
        let acc1 = spec_reg_insert(acc, enum_key(enums[0]), enums[0].enumtype@);
        crate::mapper::lemma_lookup_insert_other(acc, enum_key(enums[0]), enums[0].enumtype@, k);
        assert forall|j: int| 0 <= j < enums.drop_first().len() implies enum_key(
            #[trigger] enums.drop_first()[j],
        ) != k by {
            assert(enums.drop_first()[j] == enums[j + 1]);
        }
        lemma_fold_enums_other(acc1, enums.drop_first(), k);
    }
}

proof fn lemma_fold_enums_finds(
    acc: Seq<(Seq<char>, Seq<char>)>,
    enums: Seq<VppJsApiEnum>,
    ei: int,
)
    requires
        0 <= ei < enums.len(),
        forall|j: int|
            0 <= j < enums.len() && j != ei ==> enum_key(#[trigger] enums[j]) != enum_key(
                enums[ei],
            ),
    ensures
        spec_reg_lookup(spec_reg_fold_enums(acc, enums), enum_key(enums[ei])) == Some(
            enums[ei].enumtype@,
        ),
    decreases enums.len(),
{
    let k = enum_key(enums[ei]);
    let acc1 = spec_reg_insert(acc, enum_key(enums[0]), enums[0].enumtype@);
    if ei == 0 {
        crate::mapper::lemma_lookup_insert_same(acc, k, enums[0].enumtype@);
        assert forall|j: int| 0 <= j < enums.drop_first().len() implies enum_key(
            #[trigger] enums.drop_first()[j],
        ) != k by {
            assert(enums.drop_first()[j] == enums[j + 1]);
        }
        lemma_fold_enums_other(acc1, enums.drop_first(), k);
    } else {
        assert(enums.drop_first()[ei - 1] == enums[ei]);
        assert forall|j: int|
            0 <= j < enums.drop_first().len() && j != ei - 1 implies enum_key(
            #[trigger] enums.drop_first()[j],
        ) != enum_key(enums.drop_first()[ei - 1]) by {
            assert(enums.drop_first()[j] == enums[j + 1]);
        }
        lemma_fold_enums_finds(acc1, enums.drop_first(), ei - 1);
    }
}

proof fn lemma_fold_files_other(
    acc: Seq<(Seq<char>, Seq<char>)>,
    files: Seq<(Seq<char>, VppJsApiFile)>,
    k: Seq<char>,
)
    requires
        forall|fj: int, ej: int|
            0 <= fj < files.len() && 0 <= ej < (#[trigger] files[fj]).1.enums@.len() ==> enum_key(
                #[trigger] files[fj].1.enums@[ej],
            ) != k,
    ensures
        spec_reg_lookup(spec_reg_fold_files(acc, files), k) == spec_reg_lookup(acc, k),
    decreases files.len(),
{
    if files.len() == 0 {
    } else {
        let acc1 = spec_reg_fold_enums(acc, files[0].1.enums@);
        lemma_fold_enums_other(acc, files[0].1.enums@, k);
        assert forall|fj: int, ej: int|
            0 <= fj < files.drop_first().len() && 0 <= ej < (#[trigger] files.drop_first()[fj]).1.enums@.len()
            implies enum_key(#[trigger] files.drop_first()[fj].1.enums@[ej]) != k by {
            assert(files.drop_first()[fj] == files[fj + 1]);
        }
        lemma_fold_files_other(acc1, files.drop_first(), k);
    }
}

/// The full-corpus pre-pass finds an enum under its generated name no
/// matter where in the corpus it was declared: if exactly one enum of the
/// loaded files carries the name, the finished registry maps that name to
/// that enum's backing width.  A field mapped against the finished
/// registry therefore becomes a sized enum regardless of the declaration
/// order between the enum and the field's owning message.
pub proof fn lemma_registry_finds_enum(
    files: Seq<(Seq<char>, VppJsApiFile)>,
    fi: int,
    ei: int,
)
    requires
        0 <= fi < files.len(),
        0 <= ei < files[fi].1.enums@.len(),
        forall|fj: int, ej: int|
            0 <= fj < files.len() && 0 <= ej < (#[trigger] files[fj]).1.enums@.len() && !(fj == fi
                && ej == ei) ==> enum_key(#[trigger] files[fj].1.enums@[ej]) != enum_key(
                files[fi].1.enums@[ei],
            ),
    ensures
        spec_reg_lookup(
            spec_reg_fold_files(Seq::<(Seq<char>, Seq<char>)>::empty(), files),
            enum_key(files[fi].1.enums@[ei]),
        ) == Some(files[fi].1.enums@[ei].enumtype@),
{
    lemma_fold_files_finds(Seq::<(Seq<char>, Seq<char>)>::empty(), files, fi, ei);
}

proof fn lemma_fold_files_finds(
    acc: Seq<(Seq<char>, Seq<char>)>,
    files: Seq<(Seq<char>, VppJsApiFile)>,
    fi: int,
    ei: int,
)
    requires
        0 <= fi < files.len(),
        0 <= ei < files[fi].1.enums@.len(),
        forall|fj: int, ej: int|
            0 <= fj < files.len() && 0 <= ej < (#[trigger] files[fj]).1.enums@.len() && !(fj == fi
                && ej == ei) ==> enum_key(#[trigger] files[fj].1.enums@[ej]) != enum_key(
                files[fi].1.enums@[ei],
            ),
    ensures
        spec_reg_lookup(spec_reg_fold_files(acc, files), enum_key(files[fi].1.enums@[ei]))
            == Some(files[fi].1.enums@[ei].enumtype@),
    decreases files.len(),
{
    let k = enum_key(files[fi].1.enums@[ei]);
    let acc1 = spec_reg_fold_enums(acc, files[0].1.enums@);
    if fi == 0 {
        lemma_fold_enums_finds(acc, files[0].1.enums@, ei);
        assert forall|fj: int, ej: int|
            0 <= fj < files.drop_first().len() && 0 <= ej < (#[trigger] files.drop_first()[fj]).1.enums@.len()
            implies enum_key(#[trigger] files.drop_first()[fj].1.enums@[ej]) != k by {
            assert(files.drop_first()[fj] == files[fj + 1]);
        }
        lemma_fold_files_other(acc1, files.drop_first(), k);
    } else {
        assert forall|ej: int| 0 <= ej < files[0].1.enums@.len() implies enum_key(
            #[trigger] files[0].1.enums@[ej],
        ) != k by {}
        lemma_fold_enums_other(acc, files[0].1.enums@, k);
        assert(files.drop_first()[fi - 1] == files[fi]);
        assert forall|fj: int, ej: int|
            0 <= fj < files.drop_first().len() && 0 <= ej < (#[trigger] files.drop_first()[fj]).1.enums@.len()
                && !(fj == fi - 1 && ej == ei) implies enum_key(
            #[trigger] files.drop_first()[fj].1.enums@[ej],
        ) != enum_key(files.drop_first()[fi - 1].1.enums@[ei]) by {
            assert(files.drop_first()[fj] == files[fj + 1]);
        }
        lemma_fold_files_finds(acc1, files.drop_first(), fi - 1, ei);
    }
}

/// An ordered file as a (path, file) pair.
pub open spec fn if_view(x: ImportsFiles) -> (Seq<char>, VppJsApiFile) {
    (x.name@, *x.file)
}

/// A whole collection of ordered files as (path, file) pairs.
pub open spec fn if_views(s: Seq<ImportsFiles>) -> Seq<(Seq<char>, VppJsApiFile)> {
    s.map_values(|x: ImportsFiles| if_view(x))
}

/// The sort key of a (path, file) pair: its declared import count.
pub open spec fn pair_count(p: (Seq<char>, VppJsApiFile)) -> int {
    p.1.imports@.len() as int
}

/// The pair-level mirror of the import resolver's merge.
pub open spec fn spec_merge_p(
    l: Seq<(Seq<char>, VppJsApiFile)>,
    r: Seq<(Seq<char>, VppJsApiFile)>,
) -> Seq<(Seq<char>, VppJsApiFile)>
    decreases l.len() + r.len(),
{
    if l.len() == 0 {
        r
    } else if r.len() == 0 {
        l
    } else if pair_count(l[0]) <= pair_count(r[0]) {
        seq![l[0]] + spec_merge_p(l.drop_first(), r)
    } else {
        seq![r[0]] + spec_merge_p(l, r.drop_first())
    }
}

/// The pair-level mirror of the import resolver's sort.
pub open spec fn spec_msort_p(s: Seq<(Seq<char>, VppJsApiFile)>, left: int, right: int) -> Seq<
    (Seq<char>, VppJsApiFile),
>
    decreases right - left,
{
    if 1 < right - left {
        let mid = left + (right - left) / 2;
        let s1 = spec_msort_p(s, left, mid);
        let s2 = spec_msort_p(s1, mid, right);
        s2.subrange(0, left) + spec_merge_p(s2.subrange(left, mid), s2.subrange(mid, right))
            + s2.subrange(right, s2.len() as int)
    } else {
        s
    }
}

proof fn lemma_merge_commutes(l: Seq<ImportsFiles>, r: Seq<ImportsFiles>)
    ensures
        if_views(spec_merge(l, r)) == spec_merge_p(if_views(l), if_views(r)),
    decreases l.len() + r.len(),
{
    if l.len() == 0 {
        assert(if_views(spec_merge(l, r)) =~= spec_merge_p(if_views(l), if_views(r)));
    } else if r.len() == 0 {
        assert(if_views(l).len() > 0);
        assert(if_views(spec_merge(l, r)) =~= spec_merge_p(if_views(l), if_views(r)));
    } else {
        assert(if_views(l)[0] == if_view(l[0]));
        assert(if_views(r)[0] == if_view(r[0]));
        assert(pair_count(if_view(l[0])) == import_count(l[0]));
        assert(pair_count(if_view(r[0])) == import_count(r[0]));
        assert(if_views(l.drop_first()) =~= if_views(l).drop_first());
        assert(if_views(r.drop_first()) =~= if_views(r).drop_first());
        if import_count(l[0]) <= import_count(r[0]) {
            lemma_merge_commutes(l.drop_first(), r);
            assert(if_views(seq![l[0]] + spec_merge(l.drop_first(), r)) =~= seq![if_view(l[0])]
                + if_views(spec_merge(l.drop_first(), r)));
            assert(spec_merge_p(if_views(l), if_views(r)) =~= seq![if_views(l)[0]] + spec_merge_p(
                if_views(l).drop_first(),
                if_views(r),
            ));
        } else {
            lemma_merge_commutes(l, r.drop_first());
            assert(if_views(seq![r[0]] + spec_merge(l, r.drop_first())) =~= seq![if_view(r[0])]
                + if_views(spec_merge(l, r.drop_first())));
            assert(spec_merge_p(if_views(l), if_views(r)) =~= seq![if_views(r)[0]] + spec_merge_p(
                if_views(l),
                if_views(r).drop_first(),
            ));
        }
    }
}

proof fn lemma_msort_commutes(s: Seq<ImportsFiles>, left: int, right: int)
    requires
        0 <= left <= right <= s.len(),
    ensures
        if_views(spec_merge_sort(s, left, right)) == spec_msort_p(if_views(s), left, right),
    decreases right - left,
{
    if 1 < right - left {
        let mid = left + (right - left) / 2;
        let s1 = spec_merge_sort(s, left, mid);
        lemma_msort_commutes(s, left, mid);
        lemma_merge_sort_len(s, left, mid);
        let s2 = spec_merge_sort(s1, mid, right);
        lemma_msort_commutes(s1, mid, right);
        lemma_merge_sort_len(s1, mid, right);
        lemma_merge_commutes(s2.subrange(left, mid), s2.subrange(mid, right));
        let v = if_views(s2);
        assert(if_views(s2.subrange(left, mid)) =~= v.subrange(left, mid));
        assert(if_views(s2.subrange(mid, right)) =~= v.subrange(mid, right));
        assert(if_views(s2.subrange(0, left)) =~= v.subrange(0, left));
        assert(if_views(s2.subrange(right, s2.len() as int)) =~= v.subrange(
            right,
            v.len() as int,
        ));
        let merged = spec_merge(s2.subrange(left, mid), s2.subrange(mid, right));
        assert(if_views(
            s2.subrange(0, left) + merged + s2.subrange(right, s2.len() as int),
        ) =~= if_views(s2.subrange(0, left)) + if_views(merged) + if_views(
            s2.subrange(right, s2.len() as int),
        ));
        assert(if_views(spec_merge_sort(s, left, right)) =~= spec_msort_p(
            if_views(s),
            left,
            right,
        ));
    }
}

/// Whether a path follows the types-file naming convention.
pub open spec fn spec_is_types_path(p: Seq<char>) -> bool {
    "_types.api.json"@.len() <= p.len() && p.subrange(
        p.len() - "_types.api.json"@.len(),
        p.len() as int,
    ) == "_types.api.json"@
}

/// The (path, file) pairs whose path follows the types convention, in
/// their original order.
pub open spec fn spec_filter_types(s: Seq<(Seq<char>, VppJsApiFile)>) -> Seq<
    (Seq<char>, VppJsApiFile),
>
    decreases s.len(),
{
    if s.len() == 0 {
        Seq::empty()
    } else if spec_is_types_path(s[0].0) {
        seq![s[0]] + spec_filter_types(s.drop_first())
    } else {
        spec_filter_types(s.drop_first())
    }
}

/// The remaining (path, file) pairs, in their original order.
pub open spec fn spec_filter_rest(s: Seq<(Seq<char>, VppJsApiFile)>) -> Seq<
    (Seq<char>, VppJsApiFile),
>
    decreases s.len(),
{
    if s.len() == 0 {
        Seq::empty()
    } else if spec_is_types_path(s[0].0) {
        spec_filter_rest(s.drop_first())
    } else {
        seq![s[0]] + spec_filter_rest(s.drop_first())
    }
}

/// A generated unit as a (path, text) pair.
pub open spec fn unit_view(u: GeneratedUnit) -> (Seq<char>, Seq<char>) {
    (u.path@, u.text@)
}

/// The units emitted for a run of (path, file) pairs, one per file, in
/// order.
pub open spec fn spec_units_of(
    reg: Seq<(Seq<char>, Seq<char>)>,
    s: Seq<(Seq<char>, VppJsApiFile)>,
) -> Seq<(Seq<char>, Seq<char>)>
    decreases s.len(),
{
    if s.len() == 0 {
        Seq::empty()
    } else {
        seq![(spec_unit_path(s[0].0), spec_file_text(reg, s[0].0, s[0].1))] + spec_units_of(
            reg,
            s.drop_first(),
        )
    }
}

/// What the binding pass emits for a loaded corpus: the types files
/// ordered ascending by import count first, then every other file in load
/// order, one generated unit each.
pub open spec fn spec_binding_units(
    reg: Seq<(Seq<char>, Seq<char>)>,
    entries: Seq<(Seq<char>, VppJsApiFile)>,
) -> Seq<(Seq<char>, Seq<char>)> {
    spec_units_of(
        reg,
        spec_msort_p(
            spec_filter_types(entries),
            0,
            spec_filter_types(entries).len() as int,
        ) + spec_filter_rest(entries),
    )
}

/// Splits the loaded corpus into the types files — boxed for the import
/// resolver — and the rest, both in load order.
fn partition_types(entries: Vec<(String, VppJsApiFile)>) -> (r: (Vec<ImportsFiles>, Vec<
    (String, VppJsApiFile),
>))
    ensures
        if_views(r.0@) == spec_filter_types(
            entries@.map_values(|p: (String, VppJsApiFile)| (p.0@, p.1)),
        ),
        r.1@.map_values(|p: (String, VppJsApiFile)| (p.0@, p.1)) == spec_filter_rest(
            entries@.map_values(|p: (String, VppJsApiFile)| (p.0@, p.1)),
        ),
{
    let ghost all = entries@.map_values(|p: (String, VppJsApiFile)| (p.0@, p.1));
    let mut types: Vec<ImportsFiles> = Vec::new();
    let mut rest: Vec<(String, VppJsApiFile)> = Vec::new();
    let mut work = entries;
    proof {
        assert(if_views(types@) =~= Seq::<(Seq<char>, VppJsApiFile)>::empty());
        assert(rest@.map_values(|p: (String, VppJsApiFile)| (p.0@, p.1))
            =~= Seq::<(Seq<char>, VppJsApiFile)>::empty());
    }
    while work.len() > 0
        invariant
            spec_filter_types(all) == if_views(types@) + spec_filter_types(
                work@.map_values(|p: (String, VppJsApiFile)| (p.0@, p.1)),
            ),
            spec_filter_rest(all) == rest@.map_values(|p: (String, VppJsApiFile)| (p.0@, p.1))
                + spec_filter_rest(work@.map_values(|p: (String, VppJsApiFile)| (p.0@, p.1))),
        decreases work@.len(),
    {
        let ghost pre = work@.map_values(|p: (String, VppJsApiFile)| (p.0@, p.1));
        let (name, file) = work.remove(0);
        assert(work@.map_values(|p: (String, VppJsApiFile)| (p.0@, p.1)) =~= pre.drop_first());
        assert(pre[0] == (name@, file));
        if crate::strutil::str_ends_with(name.as_str(), "_types.api.json") {
            let x = ImportsFiles { name, file: Box::new(file) };
            types.push(x);
            assert(if_view(x) == pre[0]);
            assert(if_views(types@) =~= if_views(types@.drop_last()).push(if_view(x)));
            assert(if_views(types@) + spec_filter_types(pre.drop_first()) =~= spec_filter_types(
                all,
            ));
        } else {
            rest.push((name, file));
            assert(rest@.map_values(|p: (String, VppJsApiFile)| (p.0@, p.1)) =~= rest@.drop_last()
                .map_values(|p: (String, VppJsApiFile)| (p.0@, p.1)).push(pre[0]));
            assert(rest@.map_values(|p: (String, VppJsApiFile)| (p.0@, p.1)) + spec_filter_rest(
                pre.drop_first(),
            ) =~= spec_filter_rest(all));
        }
    }
    assert(work@.map_values(|p: (String, VppJsApiFile)| (p.0@, p.1))
        =~= Seq::<(Seq<char>, VppJsApiFile)>::empty());
    assert(if_views(types@) + Seq::<(Seq<char>, VppJsApiFile)>::empty() =~= if_views(types@));
    assert(rest@.map_values(|p: (String, VppJsApiFile)| (p.0@, p.1))
        + Seq::<(Seq<char>, VppJsApiFile)>::empty() =~= rest@.map_values(
        |p: (String, VppJsApiFile)| (p.0@, p.1),
    ));
    (types, rest)
}

proof fn lemma_units_of_elementwise(
    reg: Seq<(Seq<char>, Seq<char>)>,
    s: Seq<(Seq<char>, VppJsApiFile)>,
)
    ensures
        spec_units_of(reg, s).len() == s.len(),
        forall|i: int|
            0 <= i < s.len() ==> spec_units_of(reg, s)[i] == (
                spec_unit_path((#[trigger] s[i]).0),
                spec_file_text(reg, s[i].0, s[i].1),
            ),
    decreases s.len(),
{
    if s.len() == 0 {
    } else {
        lemma_units_of_elementwise(reg, s.drop_first());
        let out = spec_units_of(reg, s);
        assert forall|i: int| 0 <= i < s.len() implies out[i] == (
            spec_unit_path((#[trigger] s[i]).0),
            spec_file_text(reg, s[i].0, s[i].1),
        ) by {
            if 0 < i {
                assert(out[i] == spec_units_of(reg, s.drop_first())[i - 1]);
                assert(s.drop_first()[i - 1] == s[i]);
            }
        }
    }
}

/// Runs the binding pass over a loaded corpus: orders the types files by
/// import count, then emits one generated unit per file against the given
/// registry — ordered types first, then the rest in load order.
pub fn plan_binding(map: ApiFileMap, reg: &EnumWidthRegistry) -> (r: Vec<GeneratedUnit>)
    ensures
        r@.map_values(|u: GeneratedUnit| unit_view(u)) == spec_binding_units(
            reg_entries(*reg),
            map_entries(map),
        ),
{
    let ghost entries_v = map_entries(map);
    let entries = map.into_entries();
    let (types, rest) = partition_types(entries);
    let ghost tseq = types@;
    let ghost tv = if_views(types@);
    let ghost restv = rest@.map_values(|p: (String, VppJsApiFile)| (p.0@, p.1));
    let n_types = types.len();
    let ordered = crate::util::merge_sort(types, 0, n_types);
    proof {
        lemma_msort_commutes(tseq, 0, tseq.len() as int);
        assert(if_views(ordered@) == spec_msort_p(tv, 0, tv.len() as int));
    }
    let ghost full = if_views(ordered@) + restv;
    let mut out: Vec<GeneratedUnit> = Vec::new();
    let n1 = ordered.len();
    let mut i: usize = 0;
    proof {
        crate::util::lemma_merge_sort_len(tseq, 0, tseq.len() as int);
    }
    while i < n1
        invariant
            0 <= i <= n1,
            n1 == ordered@.len(),
            out@.len() == i,
            full == if_views(ordered@) + restv,
            forall|j: int|
                0 <= j < i ==> unit_view(#[trigger] out@[j]) == (
                    spec_unit_path(full[j].0),
                    spec_file_text(reg_entries(*reg), full[j].0, full[j].1),
                ),
        decreases n1 - i,
    {
        let u = emit_file_unit(reg, ordered[i].name.as_str(), &ordered[i].file);
        proof {
            assert(if_views(ordered@)[i as int] == if_view(ordered@[i as int]));
            assert(full[i as int] == if_view(ordered@[i as int]));
        }
        out.push(u);
        i += 1;
    }
    let n2 = rest.len();
    let mut i: usize = 0;
    while i < n2
        invariant
            0 <= i <= n2,
            n2 == rest@.len(),
            out@.len() == n1 + i,
            n1 == ordered@.len(),
            full == if_views(ordered@) + restv,
            restv == rest@.map_values(|p: (String, VppJsApiFile)| (p.0@, p.1)),
            forall|j: int|
                0 <= j < n1 + i ==> unit_view(#[trigger] out@[j]) == (
                    spec_unit_path(full[j].0),
                    spec_file_text(reg_entries(*reg), full[j].0, full[j].1),
                ),
        decreases n2 - i,
    {
        let u = emit_file_unit(reg, rest[i].0.as_str(), &rest[i].1);
        proof {
            assert(restv[i as int] == (rest@[i as int].0@, rest@[i as int].1));
            assert(full[n1 + i] == restv[i as int]);
        }
        out.push(u);
        i += 1;
    }
    proof {
        lemma_units_of_elementwise(reg_entries(*reg), full);
        assert(out@.map_values(|u: GeneratedUnit| unit_view(u)) =~= spec_units_of(
            reg_entries(*reg),
            full,
        ));
        assert(tv == spec_filter_types(entries_v));
        assert(restv == spec_filter_rest(entries_v));
    }
    out
}

/// The full package scaffolding plan: the directories to create, in
/// creation order, and every artifact to write, each relative to the
/// package root.
pub struct PackagePlan {
    pub dirs: Vec<String>,
    pub units: Vec<GeneratedUnit>,
}

/// The four directories of the package layout, under the destination.
pub open spec fn spec_package_dirs(pp: Seq<char>, pkg: Seq<char>) -> Seq<Seq<char>> {
    seq![
        pp + "/"@ + pkg,
        pp + "/"@ + pkg + "/src"@,
        pp + "/"@ + pkg + "/tests"@,
        pp + "/"@ + pkg + "/examples"@,
    ]
}

/// The lines of the aggregating module: one re-export per loaded file, by
/// its derived module name, in load order.
pub open spec fn spec_lib_module_lines(entries: Seq<(Seq<char>, VppJsApiFile)>) -> Seq<char>
    decreases entries.len(),
{
    if entries.len() == 0 {
        Seq::empty()
    } else {
        "pub mod "@ + spec_module_name(entries[0].0) + ";\n"@ + spec_lib_module_lines(
            entries.drop_first(),
        )
    }
}

/// The manifest written at the package root: the package name and the
/// externally supplied dependency specification, inserted verbatim.
pub open spec fn spec_manifest_text(pkg: Seq<char>, deps: Seq<char>) -> Seq<char> {
    "[package]\nname = \""@ + pkg + "\"\nversion = \"0.1.0\"\nedition = \"2021\"\n\n[dependencies]\nvpp-api-message = "@
        + deps + "\n"@
}

/// The marker the two skeleton templates carry where the package name
/// belongs.
pub open spec fn spec_template_marker() -> Seq<char> {
    "__PACKAGE__"@
}

/// Plans the full package scaffolding for a loaded corpus: the directory
/// layout, the aggregating module, the manifest, the two instantiated
/// skeletons, and then the binding units — ordered types files first, the
/// rest in load order.
pub fn plan_package(
    map: ApiFileMap,
    reg: &EnumWidthRegistry,
    package_path: &str,
    package_name: &str,
    vppapi_opts: &str,
    test_template: &str,
    example_template: &str,
) -> (r: PackagePlan)
    ensures
        r.dirs@.map_values(|d: String| d@) == spec_package_dirs(package_path@, package_name@),
        r.units@.map_values(|u: GeneratedUnit| unit_view(u)) == seq![
            ("src/mod.rs"@, spec_lib_module_lines(map_entries(map))),
            ("Cargo.toml"@, spec_manifest_text(package_name@, vppapi_opts@)),
            (
                "tests/interface_test.rs"@,
                crate::strutil::spec_replace(
                    test_template@,
                    spec_template_marker(),
                    package_name@,
                ),
            ),
            (
                "examples/progressive_vpp.rs"@,
                crate::strutil::spec_replace(
                    example_template@,
                    spec_template_marker(),
                    package_name@,
                ),
            ),
        ] + spec_binding_units(reg_entries(*reg), map_entries(map)),
{
    let ghost entries_v = map_entries(map);
    let mut dirs: Vec<String> = Vec::new();
    let mut root = String::from_str(package_path);
    root.append("/");
    root.append(package_name);
    let mut d_src = root.clone();
    d_src.append("/src");
    let mut d_tests = root.clone();
    d_tests.append("/tests");
    let mut d_examples = root.clone();
    d_examples.append("/examples");
    dirs.push(root);
    dirs.push(d_src);
    dirs.push(d_tests);
    dirs.push(d_examples);
    proof {
        assert(dirs@.map_values(|d: String| d@) =~= spec_package_dirs(
            package_path@,
            package_name@,
        ));
    }
    // The aggregating module, from the paths in load order.
    let mut lib_text = String::new();
    let n = map.len();
    let mut i: usize = 0;
    proof {
        assert(entries_v.subrange(0, n as int) =~= entries_v);
    }
    while i < n
        invariant
            0 <= i <= n,
            n == map_entries(map).len(),
            entries_v == map_entries(map),
            lib_text@ + spec_lib_module_lines(entries_v.subrange(i as int, n as int))
                == spec_lib_module_lines(entries_v),
        decreases n - i,
    {
        let ghost rem = entries_v.subrange(i as int, n as int);
        assert(rem.drop_first() =~= entries_v.subrange(i + 1, n as int));
        lib_text.append("pub mod ");
        let m = module_name_of_path(map.key_at(i).as_str());
        lib_text.append(m.as_str());
        lib_text.append(";\n");
        assert(lib_text@ + spec_lib_module_lines(entries_v.subrange(i + 1, n as int))
            =~= spec_lib_module_lines(entries_v));
        i += 1;
    }
    proof {
        assert(spec_lib_module_lines(entries_v.subrange(n as int, n as int))
            =~= Seq::<char>::empty());
        assert(lib_text@ + Seq::<char>::empty() =~= lib_text@);
    }
    let lib_unit = GeneratedUnit { path: String::from_str("src/mod.rs"), text: lib_text };
    // The manifest.
    let mut manifest = String::from_str("[package]\nname = \"");
    manifest.append(package_name);
    manifest.append("\"\nversion = \"0.1.0\"\nedition = \"2021\"\n\n[dependencies]\nvpp-api-message = ");
    manifest.append(vppapi_opts);
    manifest.append("\n");
    let manifest_unit = GeneratedUnit { path: String::from_str("Cargo.toml"), text: manifest };
    // The two instantiated skeletons.
    let test_text = crate::strutil::replace_all(test_template, "__PACKAGE__", package_name);
    let test_unit = GeneratedUnit {
        path: String::from_str("tests/interface_test.rs"),
        text: test_text,
    };
    let example_text = crate::strutil::replace_all(example_template, "__PACKAGE__", package_name);
    let example_unit = GeneratedUnit {
        path: String::from_str("examples/progressive_vpp.rs"),
        text: example_text,
    };
    let mut units: Vec<GeneratedUnit> = Vec::new();
    units.push(lib_unit);
    units.push(manifest_unit);
    units.push(test_unit);
    units.push(example_unit);
    let mut code_units = plan_binding(map, reg);
    let ghost head = units@;
    units.append(&mut code_units);
    proof {
        assert(units@.map_values(|u: GeneratedUnit| unit_view(u)) =~= head.map_values(
            |u: GeneratedUnit| unit_view(u),
        ) + spec_binding_units(reg_entries(*reg), entries_v));
        assert(head.map_values(|u: GeneratedUnit| unit_view(u)) =~= seq![
            ("src/mod.rs"@, spec_lib_module_lines(entries_v)),
            ("Cargo.toml"@, spec_manifest_text(package_name@, vppapi_opts@)),
            (
                "tests/interface_test.rs"@,
                crate::strutil::spec_replace(
                    test_template@,
                    spec_template_marker(),
                    package_name@,
                ),
            ),
            (
                "examples/progressive_vpp.rs"@,
                crate::strutil::spec_replace(
                    example_template@,
                    spec_template_marker(),
                    package_name@,
                ),
            ),
        ]);
        assert(units@.map_values(|u: GeneratedUnit| unit_view(u)) =~= seq![
            ("src/mod.rs"@, spec_lib_module_lines(entries_v)),
            ("Cargo.toml"@, spec_manifest_text(package_name@, vppapi_opts@)),
            (
                "tests/interface_test.rs"@,
                crate::strutil::spec_replace(
                    test_template@,
                    spec_template_marker(),
                    package_name@,
                ),
            ),
            (
                "examples/progressive_vpp.rs"@,
                crate::strutil::spec_replace(
                    example_template@,
                    spec_template_marker(),
                    package_name@,
                ),
            ),
        ] + spec_binding_units(reg_entries(*reg), entries_v));
    }
    PackagePlan { dirs, units }
}

} // verus!
