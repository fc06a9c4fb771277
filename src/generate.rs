//! The generation algorithm: a breadth-first walk over the group registry
//! from the data struct, emitting one wrapper and one extra struct per
//! origin, one struct per group, and the conversion impls that link them.

use vstd::prelude::*;
use vstd::string::StringExecFns;

use crate::config::{
    extra_name, nest_field_name, wrapper_data_field, wrapper_extra_field, wrapper_flatten,
    wrapper_name, DerivedStructClass, GlobalOpts,
};
use crate::mapping::{children_of, is_parent, origin_ident_of, strategy_key, MapStrategy, NestRepo};
use crate::model::{
    opt_text, texts, ConversionImpl, FieldView, ItemVis, StructField, StructView, UniversalStruct,
};
use crate::config::DeriveItemOpts;
use crate::error::GenError;
use crate::parse::{
    config_ok, attrs_of_class, build_error_holds, build_state, built_from, nest_field_view, nest_fields_upto, State,
};
use crate::render::{impl_text, quoted_of};

verus! {

/// `acc` with `x` appended unless it holds it already.
pub open spec fn push_unique(acc: Seq<Seq<char>>, x: Seq<char>) -> Seq<Seq<char>> {
    if acc.contains(x) {
        acc
    } else {
        acc.push(x)
    }
}

/// `acc` extended by the items of `add` that are new, in order: the first
/// occurrence of each text wins.
pub open spec fn dedup_append(acc: Seq<Seq<char>>, add: Seq<Seq<char>>) -> Seq<Seq<char>>
    decreases add.len(),
{
    if add.len() == 0 {
        acc
    } else {
        push_unique(dedup_append(acc, add.drop_last()), add.last())
    }
}

/// The derives of every generated struct: `Debug`, `Clone` and `Serialize`,
/// and `JsonSchema` when schemas are asked for.
pub open spec fn base_derives(g: GlobalOpts) -> Seq<Seq<char>> {
    seq!["core::fmt::Debug"@, "core::clone::Clone"@, "serde::Serialize"@] + if g.schema || g.inline {
        seq!["schemars::JsonSchema"@]
    } else {
        Seq::empty()
    }
}

/// The attributes that inline mode puts first on extra and group structs.
pub open spec fn inline_attrs(g: GlobalOpts) -> Seq<Seq<char>> {
    if g.inline {
        seq!["schemars(inline)"@]
    } else {
        Seq::empty()
    }
}

/// The attributes that inline mode puts first on the wrapper of `o`: the
/// root wrapper takes the data struct's name for its schema.
pub open spec fn wrapper_init_attrs(st: State, o: Option<usize>) -> Seq<Seq<char>> {
    if st.global.inline {
        match o {
            None => seq!["schemars(rename = "@ + quoted_of(st.root_ident@) + ")"@],
            Some(_) => seq!["schemars(inline)"@],
        }
    } else {
        Seq::empty()
    }
}

/// The name of the struct that origin `o` stands for: the data struct for
/// `None`, else the group's struct.
pub open spec fn origin_name(st: State, o: Option<usize>) -> Seq<char> {
    match o {
        None => st.root_ident@,
        Some(k) => st.nest_repo.nests@[k as int].ident@,
    }
}

/// The struct attributes of class `class` of the groups `ch`, in order.
pub open spec fn children_attrs(repo: NestRepo, ch: Seq<usize>, class: DerivedStructClass) -> Seq<
    Seq<char>,
>
    decreases ch.len(),
{
    if ch.len() == 0 {
        Seq::empty()
    } else {
        children_attrs(repo, ch.drop_last(), class) + attrs_of_class(repo, ch.last() as int, class)
    }
}

/// A field of group `k`'s struct.
pub open spec fn nest_field_spec(st: State, k: int, f: (Seq<char>, Seq<Seq<char>>)) -> FieldView {
    FieldView {
        vis: ItemVis::Public,
        name: f.0,
        ty: st.nest_repo.nests@[k].opts.field_type@,
        optional: false,
        attrs: f.1,
        doc: None,
    }
}

/// The struct of group `k`.
pub open spec fn nest_view(st: State, k: int) -> StructView {
    let n = st.nest_repo.nests@[k];
    StructView {
        vis: ItemVis::Public,
        ty: n.ident@,
        derives: dedup_append(base_derives(st.global), texts(n.opts.derive@)),
        attrs: dedup_append(inline_attrs(st.global), attrs_of_class(st.nest_repo, k, DerivedStructClass::Nest)),
        doc: opt_text(n.opts.struct_doc),
        fields: n.fields@.map_values(|f| nest_field_spec(st, k, nest_field_view(f))),
    }
}

/// The type that embeds group `k` in its origin's extra struct: its
/// wrapper when it has groups of its own, else its struct.
pub open spec fn embed_type(st: State, k: int) -> Seq<char> {
    if is_parent(st.nest_repo, k) {
        wrapper_name(st.wrapper_opts, st.nest_repo.nests@[k].ident@)
    } else {
        st.nest_repo.nests@[k].ident@
    }
}

/// Whether the field that embeds group `k` is an `Option`.
pub open spec fn embed_optional(st: State, k: int) -> bool {
    st.global.all_optional || st.nest_repo.nests@[k].opts.optional
}

/// The field that embeds group `k` in its origin's extra struct.
pub open spec fn extra_field_view(st: State, k: int) -> FieldView {
    let n = st.nest_repo.nests@[k];
    FieldView {
        vis: ItemVis::Public,
        name: nest_field_name(n.opts),
        ty: embed_type(st, k),
        optional: embed_optional(st, k),
        attrs: Seq::empty(),
        doc: opt_text(n.opts.parent_field_doc),
    }
}

pub open spec fn extra_field_views(st: State, ch: Seq<usize>) -> Seq<FieldView> {
    ch.map_values(|c: usize| extra_field_view(st, c as int))
}

/// The extra struct of origin `o`.
pub open spec fn extra_view(st: State, o: Option<usize>) -> StructView {
    let ch = children_of(st.nest_repo, o);
    StructView {
        vis: ItemVis::Public,
        ty: extra_name(st.extra_opts, origin_name(st, o)),
        derives: dedup_append(base_derives(st.global), texts(st.extra_opts.derive@)),
        attrs: dedup_append(inline_attrs(st.global), children_attrs(st.nest_repo, ch, DerivedStructClass::Extra)),
        doc: opt_text(st.extra_opts.doc),
        fields: extra_field_views(st, ch),
    }
}

/// The field of the wrapper of `o` that holds the data.
pub open spec fn data_field_view(st: State, o: Option<usize>) -> FieldView {
    FieldView {
        vis: ItemVis::Public,
        name: wrapper_data_field(st.wrapper_opts),
        ty: origin_name(st, o),
        optional: false,
        attrs: if wrapper_flatten(st.wrapper_opts) {
            seq!["serde(flatten)"@]
        } else {
            Seq::empty()
        },
        doc: opt_text(st.wrapper_opts.data_field_doc),
    }
}

/// The field of the wrapper of `o` that holds the extra struct.
pub open spec fn extra_ref_field_view(st: State, o: Option<usize>) -> FieldView {
    FieldView {
        vis: ItemVis::Public,
        name: wrapper_extra_field(st.wrapper_opts),
        ty: extra_name(st.extra_opts, origin_name(st, o)),
        optional: false,
        attrs: Seq::empty(),
        doc: opt_text(st.wrapper_opts.extra_field_doc),
    }
}

/// The wrapper of origin `o`.
pub open spec fn wrapper_view(st: State, o: Option<usize>) -> StructView {
    let ch = children_of(st.nest_repo, o);
    StructView {
        vis: ItemVis::Public,
        ty: wrapper_name(st.wrapper_opts, origin_name(st, o)),
        derives: dedup_append(base_derives(st.global), texts(st.wrapper_opts.derive@)),
        attrs: dedup_append(wrapper_init_attrs(st, o), children_attrs(st.nest_repo, ch, DerivedStructClass::Wrapper)),
        doc: opt_text(st.wrapper_opts.doc),
        fields: seq![data_field_view(st, o), extra_ref_field_view(st, o)],
    }
}

/// The structs emitted for origin `o`: its wrapper, its extra struct, then
/// the struct of each child group in declaration order.
pub open spec fn origin_structs(st: State, o: Option<usize>) -> Seq<StructView> {
    seq![wrapper_view(st, o), extra_view(st, o)] + children_of(st.nest_repo, o).map_values(
        |c: usize| nest_view(st, c as int),
    )
}

/// The strategy that all of `ch` share, if they are not empty and share one.
pub open spec fn uniform_strategy(repo: NestRepo, ch: Seq<usize>) -> Option<MapStrategy> {
    if ch.len() > 0 && forall|i: int|
        0 <= i < ch.len() ==> strategy_key(repo.nests@[#[trigger] ch[i] as int].strategy)
            == strategy_key(repo.nests@[ch[0] as int].strategy) {
        Some(repo.nests@[ch[0] as int].strategy)
    } else {
        None
    }
}

/// The conversion impls that reuse existing conversions, for origin `o`.
pub open spec fn reuse_impls(st: State, o: Option<usize>) -> Seq<Seq<char>> {
    let ch = children_of(st.nest_repo, o);
    let d = origin_name(st, o);
    let e = extra_name(st.extra_opts, d);
    seq![
        crate::render::wrapper_from_data_text(
            d,
            wrapper_name(st.wrapper_opts, d),
            e,
            wrapper_data_field(st.wrapper_opts),
            wrapper_extra_field(st.wrapper_opts),
        ),
        crate::render::extra_from_data_text(d, e, extra_field_views(st, ch)),
    ] + ch.map_values(
        |c: usize| crate::render::nest_from_data_text(d, st.nest_repo.nests@[c as int].ident@),
    )
}

/// The delegation impl of origin `o`, generic over the transformer.
pub open spec fn transform_impl(st: State, o: Option<usize>) -> Seq<char> {
    let ch = children_of(st.nest_repo, o);
    let d = origin_name(st, o);
    crate::render::wrap_with_transform_text(
        d,
        wrapper_name(st.wrapper_opts, d),
        extra_name(st.extra_opts, d),
        wrapper_data_field(st.wrapper_opts),
        wrapper_extra_field(st.wrapper_opts),
        extra_field_views(st, ch),
    )
}

/// The impl that converts the origin of group `g` (a group with groups of
/// its own) straight into `g`'s wrapper, by `g`'s own
/// strategy: through its existing conversion, or through its transformer.
pub open spec fn nested_impls(st: State, g: int) -> Seq<Seq<char>> {
    let repo = st.nest_repo;
    let n = repo.nests@[g].ident@;
    let w = wrapper_name(st.wrapper_opts, n);
    let s = origin_ident_of(repo, g);
    let opt = embed_optional(st, g);
    match repo.nests@[g].strategy {
        MapStrategy::Reuse => seq![crate::render::nested_wrapper_from_text(s, n, w, opt)],
        MapStrategy::Delegate(t) => seq![crate::render::nested_wrapper_transform_text(t@, s, n, w, opt)],
    }
}

/// The conversion impls emitted for origin `o`.
pub open spec fn origin_impls(st: State, o: Option<usize>) -> Seq<Seq<char>> {
    (match uniform_strategy(st.nest_repo, children_of(st.nest_repo, o)) {
        Some(MapStrategy::Reuse) => reuse_impls(st, o),
        Some(MapStrategy::Delegate(_)) => seq![transform_impl(st, o)],
        None => Seq::empty(),
    }) + match o {
        Some(g) => nested_impls(st, g as int),
        None => Seq::empty(),
    }
}

/// The groups among `ch` that have groups of their own, as origins.
pub open spec fn next_origins(repo: NestRepo, ch: Seq<usize>) -> Seq<Option<usize>>
    decreases ch.len(),
{
    if ch.len() == 0 {
        Seq::empty()
    } else {
        next_origins(repo, ch.drop_last()) + if is_parent(repo, ch.last() as int) {
            seq![Some(ch.last())]
        } else {
            Seq::empty()
        }
    }
}

/// The origins visited from a FIFO `queue`, in order, taking at most `fuel`
/// steps: each visited origin queues its children that have children.
pub open spec fn visit(repo: NestRepo, queue: Seq<Option<usize>>, fuel: nat) -> Seq<Option<usize>>
    decreases fuel,
{
    if fuel == 0 || queue.len() == 0 {
        Seq::empty()
    } else {
        seq![queue[0]] + visit(
            repo,
            queue.drop_first() + next_origins(repo, children_of(repo, queue[0])),
            (fuel - 1) as nat,
        )
    }
}

/// The origins in breadth-first order from the data struct. Each origin is
/// visited once, so the data struct and one visit per group bound the walk.
pub open spec fn visit_order(repo: NestRepo) -> Seq<Option<usize>> {
    visit(repo, seq![None], (repo.nests@.len() + 1) as nat)
}

/// The structs emitted for the origins `vs`, in order.
pub open spec fn structs_of(st: State, vs: Seq<Option<usize>>) -> Seq<StructView>
    decreases vs.len(),
{
    if vs.len() == 0 {
        Seq::empty()
    } else {
        structs_of(st, vs.drop_last()) + origin_structs(st, vs.last())
    }
}

/// The conversion impls emitted for the origins `vs`, in order.
pub open spec fn impls_of(st: State, vs: Seq<Option<usize>>) -> Seq<Seq<char>>
    decreases vs.len(),
{
    if vs.len() == 0 {
        Seq::empty()
    } else {
        impls_of(st, vs.drop_last()) + origin_impls(st, vs.last())
    }
}

/// Appending in two steps is appending the concatenation.
pub proof fn lemma_dedup_append_concat(acc: Seq<Seq<char>>, a: Seq<Seq<char>>, b: Seq<Seq<char>>)
    ensures
        dedup_append(dedup_append(acc, a), b) == dedup_append(acc, a + b),
    decreases b.len(),
{
    if b.len() == 0 {
        assert(a + b =~= a);
    } else {
        lemma_dedup_append_concat(acc, a, b.drop_last());
        assert((a + b).drop_last() =~= a + b.drop_last());
        assert((a + b).last() == b.last());
    }
}

/// Whether `list` holds the text `x`.
fn contains_text(list: &Vec<String>, x: &String) -> (r: bool)
    ensures
        r == texts(list@).contains(x@),
{
    let mut k: usize = 0;
    while k < list.len()
        invariant
            k <= list@.len(),
            forall|j: int| 0 <= j < k ==> list@[j]@ != x@,
        decreases list@.len() - k,
    {
        if list[k] == *x {
            assert(texts(list@)[k as int] == x@);
            return true;
        }
        k = k + 1;
    }
    proof {
        if texts(list@).contains(x@) {
            let j = choose|j: int| 0 <= j < texts(list@).len() && texts(list@)[j] == x@;
            assert(list@[j]@ == x@);
        }
    }
    false
}

/// Appends each item of `add` that `list` does not hold yet.
pub fn extend_unique(list: &mut Vec<String>, add: &Vec<String>)
    ensures
        texts(final(list)@) == dedup_append(texts(old(list)@), texts(add@)),
{
    let ghost start = texts(list@);
    let mut k: usize = 0;
    while k < add.len()
        invariant
            k <= add@.len(),
            texts(list@) == dedup_append(start, texts(add@.subrange(0, k as int))),
        decreases add@.len() - k,
    {
        let ghost t = texts(add@.subrange(0, k + 1));
        proof {
            assert(t.drop_last() =~= texts(add@.subrange(0, k as int)));
            assert(t.last() == add@[k as int]@);
        }
        if !contains_text(list, &add[k]) {
            list.push(add[k].clone());
            assert(texts(list@) =~= dedup_append(start, t));
        } else {
            assert(texts(list@) =~= dedup_append(start, t));
        }
        k = k + 1;
    }
    assert(add@.subrange(0, add@.len() as int) =~= add@);
}

/// A list of copies of `v`'s strings, then deduplicated onto `init`.
fn with_unique(init: Vec<String>, add: &Vec<String>) -> (r: Vec<String>)
    ensures
        texts(r@) == dedup_append(texts(init@), texts(add@)),
{
    let mut r = init;
    extend_unique(&mut r, add);
    r
}

fn one_string(s: &str) -> (r: Vec<String>)
    ensures
        texts(r@) == seq![s@],
{
    let mut r: Vec<String> = Vec::new();
    r.push(String::from_str(s));
    assert(texts(r@) =~= seq![s@]);
    r
}

fn no_strings() -> (r: Vec<String>)
    ensures
        texts(r@) == Seq::<Seq<char>>::empty(),
{
    let r: Vec<String> = Vec::new();
    assert(texts(r@) =~= Seq::<Seq<char>>::empty());
    r
}

impl State {
    /// The derives of every generated struct.
    pub fn default_derives(&self) -> (r: Vec<String>)
        ensures
            texts(r@) == base_derives(self.global),
    {
        let mut r: Vec<String> = Vec::new();
        r.push(String::from_str("core::fmt::Debug"));
        r.push(String::from_str("core::clone::Clone"));
        r.push(String::from_str("serde::Serialize"));
        if self.global.schema() || self.global.inline() {
            r.push(String::from_str("schemars::JsonSchema"));
        }
        assert(texts(r@) =~= base_derives(self.global));
        r
    }

    /// The attributes that inline mode puts first on extra and group structs.
    fn inline_attrs(&self) -> (r: Vec<String>)
        ensures
            texts(r@) == inline_attrs(self.global),
    {
        if self.global.inline() {
            one_string("schemars(inline)")
        } else {
            no_strings()
        }
    }
}

/// The struct of group `k`.
pub fn build_nest_struct(st: &State, k: usize) -> (r: UniversalStruct)
    requires
        k < st.nest_repo.nests@.len(),
    ensures
        r@ == nest_view(*st, k as int),
{
    let info = &st.nest_repo.nests[k];
    let derives = with_unique(st.default_derives(), &info.opts.derive);
    let attrs = with_unique(st.inline_attrs(), info.struct_attrs.nest());
    let mut fields: Vec<StructField> = Vec::new();
    let mut j: usize = 0;
    while j < info.fields.len()
        invariant
            k < st.nest_repo.nests@.len(),
            *info == st.nest_repo.nests@[k as int],
            j <= info.fields@.len(),
            fields@.len() == j,
            forall|i: int|
                0 <= i < j ==> (#[trigger] fields@[i])@ == nest_field_spec(
                    *st,
                    k as int,
                    nest_field_view(info.fields@[i]),
                ),
        decreases info.fields@.len() - j,
    {
        let f = &info.fields[j];
        let field = StructField::new(
            ItemVis::Public,
            f.name.clone(),
            info.opts.field_type.clone(),
            false,
            crate::model::copy_strings(&f.attrs),
            None,
        );
        fields.push(field);
        j = j + 1;
    }
    let common = crate::model::StructCommon::new(
        ItemVis::Public,
        info.ident.clone(),
        derives,
        attrs,
        crate::model::copy_opt(&info.opts.struct_doc),
    );
    let r = UniversalStruct::from_nest(crate::model::Nest { common, fields });
    proof {
        let want = nest_view(*st, k as int);
        assert(r@.fields =~= want.fields);
        assert(r@.attrs == want.attrs);
    }
    r
}

/// The field that embeds group `k` in its origin's extra struct.
pub fn build_extra_field(st: &State, k: usize) -> (r: StructField)
    requires
        k < st.nest_repo.nests@.len(),
    ensures
        r@ == extra_field_view(*st, k as int),
{
    let info = &st.nest_repo.nests[k];
    let ty = if st.nest_repo.is_parent_index(k) {
        st.wrapper_opts.struct_name(&info.ident)
    } else {
        info.ident.clone()
    };
    let r = StructField::new(
        ItemVis::Public,
        info.opts.field_name(),
        ty,
        st.global.all_optional() || info.opts.optional(),
        Vec::new(),
        crate::model::copy_opt(&info.opts.parent_field_doc),
    );
    assert(r@.attrs =~= Seq::<Seq<char>>::empty());
    r
}

/// The fields that embed the groups `ch` in their origin's extra struct.
pub fn build_extra_fields(st: &State, ch: &Vec<usize>) -> (r: Vec<StructField>)
    requires
        forall|i: int| 0 <= i < ch@.len() ==> #[trigger] ch@[i] < st.nest_repo.nests@.len(),
    ensures
        crate::model::field_views(r@) == extra_field_views(*st, ch@),
{
    let mut r: Vec<StructField> = Vec::new();
    let mut j: usize = 0;
    while j < ch.len()
        invariant
            j <= ch@.len(),
            forall|i: int| 0 <= i < ch@.len() ==> #[trigger] ch@[i] < st.nest_repo.nests@.len(),
            r@.len() == j,
            forall|i: int| 0 <= i < j ==> (#[trigger] r@[i])@ == extra_field_view(*st, ch@[i] as int),
        decreases ch@.len() - j,
    {
        let f = build_extra_field(st, ch[j]);
        let ghost prev = r@;
        r.push(f);
        proof {
            assert forall|i: int| 0 <= i < j + 1 implies (#[trigger] r@[i])@ == extra_field_view(*st, ch@[i] as int) by {
                if i < j {
                    assert(r@[i] == prev[i]);
                }
            }
        }
        j = j + 1;
    }
    assert(crate::model::field_views(r@) =~= extra_field_views(*st, ch@));
    r
}

/// `init`, then the struct attributes of class `class` of the groups `ch`,
/// each text once.
pub fn collect_child_attrs(st: &State, ch: &Vec<usize>, init: Vec<String>, class: DerivedStructClass) -> (r:
    Vec<String>)
    requires
        forall|i: int| 0 <= i < ch@.len() ==> #[trigger] ch@[i] < st.nest_repo.nests@.len(),
    ensures
        texts(r@) == dedup_append(texts(init@), children_attrs(st.nest_repo, ch@, class)),
{
    let mut r = init;
    let ghost start = texts(r@);
    let mut j: usize = 0;
    while j < ch.len()
        invariant
            j <= ch@.len(),
            forall|i: int| 0 <= i < ch@.len() ==> #[trigger] ch@[i] < st.nest_repo.nests@.len(),
            texts(r@) == dedup_append(start, children_attrs(st.nest_repo, ch@.subrange(0, j as int), class)),
        decreases ch@.len() - j,
    {
        let info = &st.nest_repo.nests[ch[j]];
        let list = match class {
            DerivedStructClass::Wrapper => info.struct_attrs.wrapper(),
            DerivedStructClass::Extra => info.struct_attrs.extra(),
            DerivedStructClass::Nest => info.struct_attrs.nest(),
        };
        let ghost prev = children_attrs(st.nest_repo, ch@.subrange(0, j as int), class);
        extend_unique(&mut r, list);
        proof {
            let sub = ch@.subrange(0, j + 1);
            assert(sub.drop_last() =~= ch@.subrange(0, j as int));
            assert(texts(list@) == attrs_of_class(st.nest_repo, ch@[j as int] as int, class));
            lemma_dedup_append_concat(start, prev, texts(list@));
        }
        j = j + 1;
    }
    assert(ch@.subrange(0, ch@.len() as int) =~= ch@);
    r
}

/// The children of an origin are registered groups whose origin it is.
pub proof fn lemma_children_bounded(repo: NestRepo, o: Option<usize>)
    requires
        repo.nests@.len() <= usize::MAX,
    ensures
        forall|i: int|
            0 <= i < children_of(repo, o).len() ==> (#[trigger] children_of(repo, o)[i] as int)
                < repo.nests@.len() && repo.nests@[children_of(repo, o)[i] as int].parent == o,
{
    crate::mapping::lemma_children_upto(repo.nests@, o, repo.nests@.len() as int);
    assert forall|i: int| 0 <= i < children_of(repo, o).len() implies (#[trigger] children_of(
        repo,
        o,
    )[i] as int) < repo.nests@.len() && repo.nests@[children_of(repo, o)[i] as int].parent == o by {
        assert(children_of(repo, o).contains(children_of(repo, o)[i]));
    }
}

/// An origin is the data struct or a registered group.
pub open spec fn valid_origin(st: State, o: Option<usize>) -> bool {
    match o {
        Some(k) => k < st.nest_repo.nests@.len(),
        None => true,
    }
}

/// The name of the struct that origin `o` stands for.
pub fn origin_name_of(st: &State, o: Option<usize>) -> (r: String)
    requires
        valid_origin(*st, o),
    ensures
        r@ == origin_name(*st, o),
{
    match o {
        Some(k) => st.nest_repo.nests[k].ident.clone(),
        None => st.root_ident.clone(),
    }
}

/// The extra struct of origin `o`, whose children are `ch`.
pub fn build_extra_struct(st: &State, o: Option<usize>, ch: &Vec<usize>) -> (r: UniversalStruct)
    requires
        valid_origin(*st, o),
        ch@ == children_of(st.nest_repo, o),
    ensures
        r@ == extra_view(*st, o),
{
    let _count = st.nest_repo.count();
    proof {
        lemma_children_bounded(st.nest_repo, o);
    }
    let origin = origin_name_of(st, o);
    let derives = with_unique(st.default_derives(), &st.extra_opts.derive);
    let attrs = collect_child_attrs(st, ch, st.inline_attrs(), DerivedStructClass::Extra);
    let fields = build_extra_fields(st, ch);
    let common = crate::model::StructCommon::new(
        ItemVis::Public,
        st.extra_opts.struct_name(&origin),
        derives,
        attrs,
        crate::model::copy_opt(&st.extra_opts.doc),
    );
    UniversalStruct::from_extra(crate::model::Extra { common, nest_fields: fields })
}

/// The attributes that inline mode puts first on the wrapper of `o`.
fn wrapper_init(st: &State, o: Option<usize>) -> (r: Vec<String>)
    ensures
        texts(r@) == wrapper_init_attrs(*st, o),
{
    if st.global.inline() {
        match o {
            None => {
                let mut a = String::from_str("schemars(rename = ");
                let q = crate::render::quote_str(st.root_ident.as_str());
                a.append(q.as_str());
                a.append(")");
                let mut r: Vec<String> = Vec::new();
                r.push(a);
                assert(texts(r@) =~= wrapper_init_attrs(*st, o));
                r
            },
            Some(_) => one_string("schemars(inline)"),
        }
    } else {
        no_strings()
    }
}

/// The wrapper of origin `o`, whose children are `ch`.
pub fn build_wrapper_struct(st: &State, o: Option<usize>, ch: &Vec<usize>) -> (r: UniversalStruct)
    requires
        valid_origin(*st, o),
        ch@ == children_of(st.nest_repo, o),
    ensures
        r@ == wrapper_view(*st, o),
{
    let _count = st.nest_repo.count();
    proof {
        lemma_children_bounded(st.nest_repo, o);
    }
    let origin = origin_name_of(st, o);
    let derives = with_unique(st.default_derives(), &st.wrapper_opts.derive);
    let attrs = collect_child_attrs(st, ch, wrapper_init(st, o), DerivedStructClass::Wrapper);
    let data_attrs = if st.wrapper_opts.flatten() {
        one_string("serde(flatten)")
    } else {
        no_strings()
    };
    let data_field = StructField::new(
        ItemVis::Public,
        st.wrapper_opts.data_field_name(),
        origin.clone(),
        false,
        data_attrs,
        crate::model::copy_opt(&st.wrapper_opts.data_field_doc),
    );
    let extra_field = StructField::new(
        ItemVis::Public,
        st.wrapper_opts.extra_field_name(),
        st.extra_opts.struct_name(&origin),
        false,
        Vec::new(),
        crate::model::copy_opt(&st.wrapper_opts.extra_field_doc),
    );
    let nested_type = match o {
        None => crate::model::WrapperType::Root(crate::model::RootWrapper {  }),
        Some(k) => crate::model::WrapperType::Nested(
            crate::model::NestedWrapper {
                data_source_ident: origin.clone(),
                optional: st.global.all_optional() || st.nest_repo.nests[k].opts.optional(),
            },
        ),
    };
    let common = crate::model::StructCommon::new(
        ItemVis::Public,
        st.wrapper_opts.struct_name(&origin),
        derives,
        attrs,
        crate::model::copy_opt(&st.wrapper_opts.doc),
    );
    let r = UniversalStruct::from_wrapper(
        crate::model::Wrapper { common, wrapper_type: nested_type, data_field, extra_field },
    );
    proof {
        let want = wrapper_view(*st, o);
        assert(r@.fields[0].attrs =~= want.fields[0].attrs);
        assert(r@.fields[1].attrs =~= want.fields[1].attrs);
        assert(r@.fields =~= want.fields);
    }
    r
}

/// The text of each impl of a list.
pub open spec fn impl_texts(v: Seq<ConversionImpl>) -> Seq<Seq<char>> {
    v.map_values(|c: ConversionImpl| impl_text(c))
}

/// The strategy that all of `ch` share, if any.
pub fn uniform_strategy_of(st: &State, ch: &Vec<usize>) -> (r: Option<MapStrategy>)
    requires
        forall|i: int| 0 <= i < ch@.len() ==> #[trigger] ch@[i] < st.nest_repo.nests@.len(),
    ensures
        r == uniform_strategy(st.nest_repo, ch@),
{
    if ch.len() == 0 {
        return None;
    }
    let first = &st.nest_repo.nests[ch[0]].strategy;
    let mut j: usize = 1;
    while j < ch.len()
        invariant
            1 <= j <= ch@.len(),
            forall|i: int| 0 <= i < ch@.len() ==> #[trigger] ch@[i] < st.nest_repo.nests@.len(),
            *first == st.nest_repo.nests@[ch@[0] as int].strategy,
            forall|i: int|
                0 <= i < j ==> strategy_key(st.nest_repo.nests@[#[trigger] ch@[i] as int].strategy)
                    == strategy_key(*first),
        decreases ch@.len() - j,
    {
        if !st.nest_repo.nests[ch[j]].strategy.same_as(first) {
            assert(!(strategy_key(st.nest_repo.nests@[ch@[j as int] as int].strategy) == strategy_key(*first)));
            return None;
        }
        j = j + 1;
    }
    Some(first.copied())
}

/// Appends the impls that reuse existing conversions for origin `o`.
pub fn build_reuse_impls(st: &State, o: Option<usize>, ch: &Vec<usize>, impls: &mut Vec<ConversionImpl>)
    requires
        valid_origin(*st, o),
        ch@ == children_of(st.nest_repo, o),
    ensures
        impl_texts(final(impls)@) == impl_texts(old(impls)@) + reuse_impls(*st, o),
{
    let _count = st.nest_repo.count();
    proof {
        lemma_children_bounded(st.nest_repo, o);
    }
    let ghost start = old(impls)@;
    let origin = origin_name_of(st, o);
    let extra = st.extra_opts.struct_name(&origin);
    impls.push(
        ConversionImpl::WrapperFromData {
            data_ty: origin.clone(),
            wrapper_ty: st.wrapper_opts.struct_name(&origin),
            extra_ty: extra.clone(),
            data_field: st.wrapper_opts.data_field_name(),
            extra_field: st.wrapper_opts.extra_field_name(),
        },
    );
    impls.push(
        ConversionImpl::ExtraFromData {
            data_ty: origin.clone(),
            extra_ty: extra,
            fields: build_extra_fields(st, ch),
        },
    );
    let ghost head = impls@;
    let mut j: usize = 0;
    while j < ch.len()
        invariant
            j <= ch@.len(),
            valid_origin(*st, o),
            origin@ == origin_name(*st, o),
            forall|i: int| 0 <= i < ch@.len() ==> #[trigger] ch@[i] < st.nest_repo.nests@.len(),
            impls@.len() == head.len() + j,
            impls@.subrange(0, head.len() as int) == head,
            forall|i: int|
                0 <= i < j ==> impl_text(#[trigger] impls@[head.len() + i]) == crate::render::nest_from_data_text(
                    origin@,
                    st.nest_repo.nests@[ch@[i] as int].ident@,
                ),
        decreases ch@.len() - j,
    {
        let ghost before = impls@;
        impls.push(
            ConversionImpl::NestFromData {
                data_ty: origin.clone(),
                nest_ty: st.nest_repo.nests[ch[j]].ident.clone(),
            },
        );
        proof {
            assert(impls@.subrange(0, head.len() as int) =~= before.subrange(0, head.len() as int));
            assert forall|i: int| 0 <= i < j + 1 implies impl_text(#[trigger] impls@[head.len() + i])
                == crate::render::nest_from_data_text(
                origin@,
                st.nest_repo.nests@[ch@[i] as int].ident@,
            ) by {
                if i < j {
                    assert(impls@[head.len() + i] == before[head.len() + i]);
                }
            }
        }
        j = j + 1;
    }
    proof {
        let want = impl_texts(start) + reuse_impls(*st, o);
        let got = impl_texts(impls@);
        assert(got.len() == want.len());
        assert forall|i: int| 0 <= i < got.len() implies got[i] == want[i] by {
            if i < start.len() {
                assert(impls@[i] == head[i]);
            } else if i < start.len() + 2 {
                assert(impls@[i] == head[i]);
            } else {
                let jj = i - head.len();
                assert(impl_text(impls@[head.len() + jj]) == crate::render::nest_from_data_text(
                    origin@,
                    st.nest_repo.nests@[ch@[jj] as int].ident@,
                ));
            }
        }
        assert(got =~= want);
    }
}

/// The impl that fills every field of the extra struct of origin `o`
/// through a transformer, generic over the transformer type.
pub fn generate_to_wrapped_with_impl(st: &State, o: Option<usize>, ch: &Vec<usize>) -> (r:
    ConversionImpl)
    requires
        valid_origin(*st, o),
        ch@ == children_of(st.nest_repo, o),
    ensures
        impl_text(r) == transform_impl(*st, o),
{
    let _count = st.nest_repo.count();
    proof {
        lemma_children_bounded(st.nest_repo, o);
    }
    let origin = origin_name_of(st, o);
    ConversionImpl::WrapWithTransform {
        data_ty: origin.clone(),
        wrapper_ty: st.wrapper_opts.struct_name(&origin),
        extra_ty: st.extra_opts.struct_name(&origin),
        data_field: st.wrapper_opts.data_field_name(),
        extra_field: st.wrapper_opts.extra_field_name(),
        fields: build_extra_fields(st, ch),
    }
}

/// Appends the impl that converts the origin of group `g` straight into
/// `g`'s wrapper.
pub fn generate_deeply_nested_wrapper_impl(st: &State, g: usize, impls: &mut Vec<ConversionImpl>)
    requires
        st.nest_repo.wf(),
        g < st.nest_repo.nests@.len(),
    ensures
        impl_texts(final(impls)@) == impl_texts(old(impls)@) + nested_impls(*st, g as int),
{
    let info = &st.nest_repo.nests[g];
    let source = match info.parent {
        Some(p) => {
            assert(st.nest_repo.nest_wf(g as int));
            st.nest_repo.nests[p].ident.clone()
        },
        None => st.nest_repo.root_ident.clone(),
    };
    assert(source@ == origin_ident_of(st.nest_repo, g as int));
    let optional = st.global.all_optional() || info.opts.optional();
    let wrapper = st.wrapper_opts.struct_name(&info.ident);
    let ghost start = impls@;
    match &info.strategy {
        MapStrategy::Reuse => {
            impls.push(
                ConversionImpl::NestedWrapperFrom {
                    source_ty: source,
                    nest_ty: info.ident.clone(),
                    wrapper_ty: wrapper,
                    optional,
                },
            );
        },
        MapStrategy::Delegate(t) => {
            impls.push(
                ConversionImpl::NestedWrapperTransform {
                    transform_ty: t.clone(),
                    source_ty: source,
                    nest_ty: info.ident.clone(),
                    wrapper_ty: wrapper,
                    optional,
                },
            );
        },
    }
    assert(impl_texts(impls@) =~= impl_texts(start) + nested_impls(*st, g as int));
}

/// The view of each struct of a list.
pub open spec fn struct_views(v: Seq<UniversalStruct>) -> Seq<StructView> {
    v.map_values(|s: UniversalStruct| s@)
}

/// Every origin of a queue is the data struct or a registered group.
pub open spec fn valid_queue(st: State, q: Seq<Option<usize>>) -> bool {
    forall|i: int| 0 <= i < q.len() ==> valid_origin(st, #[trigger] q[i])
}

/// Emits the structs and impls of origin `o`, and queues its children that
/// have children of their own.
pub fn generate_origin(
    st: &State,
    o: Option<usize>,
    structs: &mut Vec<UniversalStruct>,
    impls: &mut Vec<ConversionImpl>,
    queue: &mut Vec<Option<usize>>,
)
    requires
        st.nest_repo.wf(),
        valid_origin(*st, o),
    ensures
        struct_views(final(structs)@) == struct_views(old(structs)@) + origin_structs(*st, o),
        impl_texts(final(impls)@) == impl_texts(old(impls)@) + origin_impls(*st, o),
        final(queue)@ == old(queue)@ + next_origins(st.nest_repo, children_of(st.nest_repo, o)),
        valid_queue(*st, old(queue)@) ==> valid_queue(*st, final(queue)@),
{
    let _count = st.nest_repo.count();
    proof {
        lemma_children_bounded(st.nest_repo, o);
    }
    let ch = st.nest_repo.get_children_by_origin(o);
    let ghost s0 = structs@;
    let ghost q0 = queue@;
    let wrapper = build_wrapper_struct(st, o, &ch);
    let extra = build_extra_struct(st, o, &ch);
    structs.push(wrapper);
    structs.push(extra);
    let ghost s1 = structs@;
    let mut j: usize = 0;
    while j < ch.len()
        invariant
            j <= ch@.len(),
            st.nest_repo.wf(),
            ch@ == children_of(st.nest_repo, o),
            forall|i: int| 0 <= i < ch@.len() ==> #[trigger] ch@[i] < st.nest_repo.nests@.len(),
            structs@.len() == s1.len() + j,
            structs@.subrange(0, s1.len() as int) == s1,
            forall|i: int| 0 <= i < j ==> (#[trigger] structs@[s1.len() + i])@ == nest_view(*st, ch@[i] as int),
            queue@ == q0 + next_origins(st.nest_repo, ch@.subrange(0, j as int)),
        decreases ch@.len() - j,
    {
        let ghost before = structs@;
        let nest = build_nest_struct(st, ch[j]);
        structs.push(nest);
        if st.nest_repo.is_parent_index(ch[j]) {
            queue.push(Some(ch[j]));
        }
        proof {
            let sub = ch@.subrange(0, j + 1);
            assert(sub.drop_last() =~= ch@.subrange(0, j as int));
            assert(queue@ =~= q0 + next_origins(st.nest_repo, sub));
            assert(structs@.subrange(0, s1.len() as int) =~= before.subrange(0, s1.len() as int));
            assert forall|i: int| 0 <= i < j + 1 implies (#[trigger] structs@[s1.len() + i])@ == nest_view(*st, ch@[i] as int) by {
                if i < j {
                    assert(structs@[s1.len() + i] == before[s1.len() + i]);
                }
            }
        }
        j = j + 1;
    }
    proof {
        assert(ch@.subrange(0, ch@.len() as int) =~= ch@);
        let want = struct_views(s0) + origin_structs(*st, o);
        let got = struct_views(structs@);
        assert(got.len() == want.len());
        assert forall|i: int| 0 <= i < got.len() implies got[i] == want[i] by {
            if i < s1.len() {
                assert(structs@[i] == s1[i]);
            } else {
                let jj = i - s1.len();
                assert((structs@[s1.len() + jj])@ == nest_view(*st, ch@[jj] as int));
            }
        }
        assert(got =~= want);
        assert forall|i: int| 0 <= i < next_origins(st.nest_repo, ch@).len() implies valid_origin(*st, #[trigger] next_origins(st.nest_repo, ch@)[i]) by {
            lemma_next_origins_valid(*st, ch@);
        }
    }
    let u = uniform_strategy_of(st, &ch);
    let ghost i0 = impls@;
    match &u {
        Some(MapStrategy::Reuse) => build_reuse_impls(st, o, &ch, impls),
        Some(MapStrategy::Delegate(_)) => {
            let c = generate_to_wrapped_with_impl(st, o, &ch);
            impls.push(c);
            assert(impl_texts(impls@) =~= impl_texts(i0) + seq![transform_impl(*st, o)]);
        },
        None => {},
    }
    let ghost i1 = impls@;
    if let Some(g) = o {
        generate_deeply_nested_wrapper_impl(st, g, impls);
    } else {
        assert(impl_texts(impls@) =~= impl_texts(i1) + Seq::<Seq<char>>::empty());
    }
    assert(impl_texts(impls@) =~= impl_texts(i0) + origin_impls(*st, o));
}

/// The origins that `next_origins` picks are registered groups.
pub proof fn lemma_next_origins_valid(st: State, ch: Seq<usize>)
    requires
        forall|i: int| 0 <= i < ch.len() ==> #[trigger] ch[i] < st.nest_repo.nests@.len(),
    ensures
        valid_queue(st, next_origins(st.nest_repo, ch)),
    decreases ch.len(),
{
    if ch.len() > 0 {
        lemma_next_origins_valid(st, ch.drop_last());
        assert(ch.last() == ch[ch.len() - 1]);
    }
}

/// The structs and conversion impls generated for one data struct.
pub struct Generated {
    pub structs: Vec<UniversalStruct>,
    pub impls: Vec<ConversionImpl>,
}

/// Walks the origins breadth-first from the data struct, siblings before
/// grandchildren, and emits each origin's structs and impls.
pub fn generate_structs(st: &State) -> (r: Generated)
    requires
        st.nest_repo.wf(),
    ensures
        struct_views(r.structs@) == structs_of(*st, visit_order(st.nest_repo)),
        impl_texts(r.impls@) == impls_of(*st, visit_order(st.nest_repo)),
{
    let count = st.nest_repo.count();
    let mut structs: Vec<UniversalStruct> = Vec::new();
    let mut impls: Vec<ConversionImpl> = Vec::new();
    let mut queue: Vec<Option<usize>> = Vec::new();
    let ghost visited: Seq<Option<usize>> = seq![None];
    assert(struct_views(structs@) =~= Seq::<StructView>::empty());
    assert(impl_texts(impls@) =~= Seq::<Seq<char>>::empty());
    generate_origin(st, None, &mut structs, &mut impls, &mut queue);
    proof {
        assert(visited.drop_last() =~= Seq::<Option<usize>>::empty());
        assert(visited.last() == None::<usize>);
        assert(structs_of(*st, visited.drop_last()) == Seq::<StructView>::empty());
        assert(impls_of(*st, visited.drop_last()) == Seq::<Seq<char>>::empty());
        assert(valid_queue(*st, Seq::<Option<usize>>::empty()));
        let q1 = seq![None::<usize>];
        assert(q1.drop_first() + queue@ =~= queue@);
        assert(visit_order(st.nest_repo) == seq![None::<usize>] + visit(st.nest_repo, queue@, count as nat));
        assert(queue@.skip(0) =~= queue@);
        assert(visited + visit(st.nest_repo, queue@.skip(0), count as nat) == visit_order(st.nest_repo));
        assert(structs_of(*st, visited) =~= origin_structs(*st, None));
        assert(impls_of(*st, visited) =~= origin_impls(*st, None));
        assert(struct_views(structs@) =~= structs_of(*st, visited));
        assert(impl_texts(impls@) =~= impls_of(*st, visited));
    }
    let mut head: usize = 0;
    let mut steps: usize = 0;
    while head < queue.len() && steps < count
        invariant
            count == st.nest_repo.nests@.len(),
            st.nest_repo.wf(),
            head <= queue@.len(),
            steps <= count,
            valid_queue(*st, queue@),
            visited + visit(st.nest_repo, queue@.skip(head as int), (count - steps) as nat) == visit_order(st.nest_repo),
            struct_views(structs@) == structs_of(*st, visited),
            impl_texts(impls@) == impls_of(*st, visited),
        decreases count - steps,
    {
        let o = queue[head];
        let ghost rest = queue@.skip(head as int);
        assert(rest[0] == o);
        generate_origin(st, o, &mut structs, &mut impls, &mut queue);
        proof {
            let nv = visited.push(o);
            assert(nv.drop_last() =~= visited);
            assert(queue@.skip(head + 1) =~= rest.drop_first() + next_origins(st.nest_repo, children_of(st.nest_repo, o)));
            assert(visit(st.nest_repo, rest, (count - steps) as nat) == seq![o] + visit(
                st.nest_repo,
                rest.drop_first() + next_origins(st.nest_repo, children_of(st.nest_repo, o)),
                (count - steps - 1) as nat,
            ));
            assert(visited + (seq![o] + visit(st.nest_repo, queue@.skip(head + 1), (count - steps - 1) as nat)) =~= nv + visit(st.nest_repo, queue@.skip(head + 1), (count - steps - 1) as nat));
            visited = nv;
        }
        head = head + 1;
        steps = steps + 1;
    }
    proof {
        assert(visit(st.nest_repo, queue@.skip(head as int), (count - steps) as nat) == Seq::<Option<usize>>::empty());
        assert(visited + Seq::<Option<usize>>::empty() =~= visited);
    }
    Generated { structs, impls }
}

/// No two structs share a name, and none is named like the data struct.
pub open spec fn names_distinct(v: Seq<StructView>, root: Seq<char>) -> bool {
    &&& forall|i: int, j: int| 0 <= i < j < v.len() ==> #[trigger] v[i].ty != #[trigger] v[j].ty
    &&& forall|i: int| 0 <= i < v.len() ==> #[trigger] v[i].ty != root
}

/// The definitions of the structs, in order.
pub open spec fn structs_text(v: Seq<StructView>) -> Seq<char>
    decreases v.len(),
{
    if v.len() == 0 {
        Seq::empty()
    } else {
        structs_text(v.drop_last()) + crate::render::struct_text(v.last())
    }
}

/// The texts, one after the other.
pub open spec fn concat_all(v: Seq<Seq<char>>) -> Seq<char>
    decreases v.len(),
{
    if v.len() == 0 {
        Seq::empty()
    } else {
        concat_all(v.drop_last()) + v.last()
    }
}

/// The whole output for a built state: every struct, then every impl.
pub open spec fn output_text(st: State) -> Seq<char> {
    structs_text(structs_of(st, visit_order(st.nest_repo))) + concat_all(
        impls_of(st, visit_order(st.nest_repo)),
    )
}

/// The structs generated from `cfg` have distinct names, none the data
/// struct's (every state built from `cfg` emits the same structs).
pub open spec fn generated_names_distinct(cfg: DeriveItemOpts) -> bool {
    forall|st: State|
        #[trigger] state_of(st, cfg) ==> names_distinct(structs_of(st, visit_order(st.nest_repo)), cfg.ident@)
}

/// A state built from `cfg`.
pub open spec fn state_of(st: State, cfg: DeriveItemOpts) -> bool {
    &&& built_from(st.nest_repo, cfg)
    &&& st.global == cfg.global_opts
    &&& st.wrapper_opts == cfg.wrapper_opts
    &&& st.extra_opts == cfg.extra_opts
    &&& st.root_ident == cfg.ident
}

/// The first struct name that is used twice, or that is the data
/// struct's; `None` when there is none.
pub fn find_name_collision(structs: &Vec<UniversalStruct>, root: &String) -> (r: Option<String>)
    ensures
        r is None <==> names_distinct(struct_views(structs@), root@),
        r matches Some(n) ==> n@ == root@ || exists|i: int, j: int|
            0 <= i < j < structs@.len() && structs@[i].common.ty@ == n@ && structs@[j].common.ty@ == n@,
{
    let ghost v = struct_views(structs@);
    let mut i: usize = 0;
    while i < structs.len()
        invariant
            i <= structs@.len(),
            v == struct_views(structs@),
            forall|a: int, b: int| 0 <= a < i && a < b < v.len() ==> #[trigger] v[a].ty != #[trigger] v[b].ty,
            forall|a: int| 0 <= a < i ==> #[trigger] v[a].ty != root@,
        decreases structs@.len() - i,
    {
        if structs[i].common.ty == *root {
            assert(v[i as int].ty == root@);
            return Some(root.clone());
        }
        let mut j: usize = i + 1;
        while j < structs.len()
            invariant
                i < j <= structs@.len(),
                v == struct_views(structs@),
                v[i as int].ty != root@,
                forall|a: int, b: int| 0 <= a < i && a < b < v.len() ==> #[trigger] v[a].ty != #[trigger] v[b].ty,
                forall|a: int| 0 <= a < i ==> #[trigger] v[a].ty != root@,
                forall|b: int| i < b < j ==> v[i as int].ty != #[trigger] v[b].ty,
            decreases structs@.len() - j,
        {
            if structs[i].common.ty == structs[j].common.ty {
                assert(v[i as int].ty == v[j as int].ty);
                return Some(structs[i].common.ty.clone());
            }
            j = j + 1;
        }
        proof {
            assert forall|a: int, b: int| 0 <= a < i + 1 && a < b < v.len() implies #[trigger] v[a].ty != #[trigger] v[b].ty by {
                if a == i {
                    assert(v[i as int].ty != v[b].ty);
                }
            }
        }
        i = i + 1;
    }
    None
}

/// Renders the structs, then the impls.
pub fn render_generated(g: &Generated) -> (r: String)
    ensures
        r@ == structs_text(struct_views(g.structs@)) + concat_all(impl_texts(g.impls@)),
{
    let mut out = String::new();
    let mut i: usize = 0;
    while i < g.structs.len()
        invariant
            i <= g.structs@.len(),
            out@ == structs_text(struct_views(g.structs@.subrange(0, i as int))),
        decreases g.structs@.len() - i,
    {
        let ghost sub = struct_views(g.structs@.subrange(0, i + 1));
        proof {
            assert(sub.drop_last() =~= struct_views(g.structs@.subrange(0, i as int)));
            assert(sub.last() == g.structs@[i as int]@);
        }
        crate::render::render_struct(&mut out, &g.structs[i]);
        i = i + 1;
    }
    assert(g.structs@.subrange(0, g.structs@.len() as int) =~= g.structs@);
    let ghost head = out@;
    let mut k: usize = 0;
    while k < g.impls.len()
        invariant
            k <= g.impls@.len(),
            out@ == head + concat_all(impl_texts(g.impls@.subrange(0, k as int))),
        decreases g.impls@.len() - k,
    {
        let ghost sub = impl_texts(g.impls@.subrange(0, k + 1));
        proof {
            assert(sub.drop_last() =~= impl_texts(g.impls@.subrange(0, k as int)));
            assert(sub.last() == impl_text(g.impls@[k as int]));
        }
        crate::render::render_impl(&mut out, &g.impls[k]);
        assert(out@ =~= head + concat_all(sub));
        k = k + 1;
    }
    assert(g.impls@.subrange(0, g.impls@.len() as int) =~= g.impls@);
    out
}

/// Resolves a configuration into the structs and impls to emit, checking
/// that no two structs share a name.
pub fn generate_model(derive_opts: DeriveItemOpts) -> (r: Result<Generated, GenError>)
    ensures
        r matches Ok(g) ==> exists|st: State|
            state_of(st, derive_opts) && struct_views(g.structs@) == structs_of(
                st,
                visit_order(st.nest_repo),
            ) && impl_texts(g.impls@) == impls_of(st, visit_order(st.nest_repo)) && names_distinct(
                struct_views(g.structs@),
                derive_opts.ident@,
            ),
        r matches Err(e) ==> build_error_holds(e, derive_opts) || (e matches GenError::StructNameCollision {
            name,
        } && exists|st: State|
            state_of(st, derive_opts) && !names_distinct(
                structs_of(st, visit_order(st.nest_repo)),
                derive_opts.ident@,
            )),
        config_ok(derive_opts) ==> r is Ok || r matches Err(GenError::StructNameCollision { .. }),
        config_ok(derive_opts) && generated_names_distinct(derive_opts) ==> r is Ok,
        r is Ok ==> config_ok(derive_opts) && generated_names_distinct(derive_opts),
{
    let st = match build_state(derive_opts) {
        Ok(st) => st,
        Err(e) => {
            return Err(e);
        },
    };
    let g = generate_structs(&st);
    assert(state_of(st, derive_opts));
    if let Some(name) = find_name_collision(&g.structs, &st.root_ident) {
        assert(!names_distinct(structs_of(st, visit_order(st.nest_repo)), derive_opts.ident@));
        return Err(GenError::StructNameCollision { name });
    }
    proof {
        lemma_built_config_ok(derive_opts, st);
        lemma_names_distinct_everywhere(derive_opts, st);
    }
    assert(state_of(st, derive_opts) && struct_views(g.structs@) == structs_of(st, visit_order(st.nest_repo))
        && impl_texts(g.impls@) == impls_of(st, visit_order(st.nest_repo)) && names_distinct(
        struct_views(g.structs@),
        derive_opts.ident@,
    ));
    Ok(g)
}

/// Generates the source text of every struct and impl for a configuration,
/// or the configuration error that stops generation.
pub fn generate(derive_opts: DeriveItemOpts) -> (r: Result<String, GenError>)
    ensures
        r matches Ok(text) ==> exists|st: State|
            state_of(st, derive_opts) && text@ == output_text(st) && names_distinct(
                structs_of(st, visit_order(st.nest_repo)),
                derive_opts.ident@,
            ),
        r matches Err(e) ==> build_error_holds(e, derive_opts) || (e matches GenError::StructNameCollision {
            name,
        } && exists|st: State|
            state_of(st, derive_opts) && !names_distinct(
                structs_of(st, visit_order(st.nest_repo)),
                derive_opts.ident@,
            )),
        config_ok(derive_opts) ==> r is Ok || r matches Err(GenError::StructNameCollision { .. }),
        config_ok(derive_opts) && generated_names_distinct(derive_opts) ==> r is Ok,
        r is Ok ==> config_ok(derive_opts) && generated_names_distinct(derive_opts),
{
    match generate_model(derive_opts) {
        Ok(g) => {
            let text = render_generated(&g);
            proof {
                let st = choose|st: State|
                    state_of(st, derive_opts) && struct_views(g.structs@) == structs_of(
                        st,
                        visit_order(st.nest_repo),
                    ) && impl_texts(g.impls@) == impls_of(st, visit_order(st.nest_repo)) && names_distinct(
                        struct_views(g.structs@),
                        derive_opts.ident@,
                    );
                assert(state_of(st, derive_opts) && text@ == output_text(st) && names_distinct(
                    structs_of(st, visit_order(st.nest_repo)),
                    derive_opts.ident@,
                ));
            }
            Ok(text)
        },
        Err(e) => Err(e),
    }
}

/// Two groups that declare one identity leave no state that generation
/// could be built from: generation fails on such a configuration, and its
/// `DuplicateNestId` error names both declarations.
pub proof fn lemma_duplicate_id_rejected(cfg: DeriveItemOpts, st: State, i: int, j: int)
    requires
        0 <= i < j < cfg.nest_opts@.len(),
        cfg.nest_opts@[i].id@ == cfg.nest_opts@[j].id@,
    ensures
        !state_of(st, cfg),
{
    if state_of(st, cfg) {
        assert(st.nest_repo.nests@[i].opts == cfg.nest_opts@[i]);
        assert(st.nest_repo.nests@[j].opts == cfg.nest_opts@[j]);
    }
}

/// A group's struct lists its fields in the data struct's declaration
/// order, each once.
pub proof fn lemma_nest_field_order(cfg: DeriveItemOpts, st: State, k: int)
    requires
        state_of(st, cfg),
        0 <= k < st.nest_repo.nests@.len(),
    ensures
        nest_view(st, k).fields.map_values(|f: FieldView| f.name) == nest_fields_upto(
            cfg.fields@,
            cfg.nest_opts@[k].id@,
            cfg.fields@.len() as int,
        ).map_values(|p: (Seq<char>, Seq<Seq<char>>)| p.0),
{
    let n = st.nest_repo.nests@[k];
    assert(n.opts == cfg.nest_opts@[k]);
    let views = crate::parse::nest_field_views(n.fields@);
    assert(views == nest_fields_upto(cfg.fields@, cfg.nest_opts@[k].id@, cfg.fields@.len() as int));
    let lhs = nest_view(st, k).fields.map_values(|f: FieldView| f.name);
    let rhs = views.map_values(|p: (Seq<char>, Seq<Seq<char>>)| p.0);
    assert(lhs.len() == rhs.len());
    assert forall|i: int| 0 <= i < lhs.len() implies lhs[i] == rhs[i] by {
        assert(views[i] == nest_field_view(n.fields@[i]));
    }
    assert(lhs =~= rhs);
}

/// Siblings with two strategies that differ share none.
pub proof fn lemma_mixed_strategies(repo: NestRepo, ch: Seq<usize>, a: int, b: int)
    requires
        0 <= a < ch.len(),
        0 <= b < ch.len(),
        strategy_key(repo.nests@[ch[a] as int].strategy) != strategy_key(repo.nests@[ch[b] as int].strategy),
    ensures
        uniform_strategy(repo, ch) is None,
{
    if uniform_strategy(repo, ch) is Some {
        assert(strategy_key(repo.nests@[ch[a] as int].strategy) == strategy_key(repo.nests@[ch[0] as int].strategy));
        assert(strategy_key(repo.nests@[ch[b] as int].strategy) == strategy_key(repo.nests@[ch[0] as int].strategy));
    }
}

/// The impls of an origin follow one strategy: when all its children reuse
/// conversions, a conversion for its wrapper, its extra struct and each
/// child; when all delegate to one transformer, exactly one delegation
/// impl; when they mix, none of these (a deeply nested origin still gets
/// the conversion from its own origin into its wrapper).
pub proof fn lemma_strategy_consistency(st: State, o: Option<usize>)
    ensures
        ({
            let ch = children_of(st.nest_repo, o);
            let d = origin_name(st, o);
            let rest = match o {
                Some(g) => nested_impls(st, g as int),
                None => Seq::empty(),
            };
            &&& uniform_strategy(st.nest_repo, ch) == Some(MapStrategy::Reuse) ==> {
                &&& origin_impls(st, o) == reuse_impls(st, o) + rest
                &&& reuse_impls(st, o).len() == ch.len() + 2
                &&& reuse_impls(st, o)[0] == crate::render::wrapper_from_data_text(
                    d,
                    wrapper_name(st.wrapper_opts, d),
                    extra_name(st.extra_opts, d),
                    wrapper_data_field(st.wrapper_opts),
                    wrapper_extra_field(st.wrapper_opts),
                )
                &&& reuse_impls(st, o)[1] == crate::render::extra_from_data_text(
                    d,
                    extra_name(st.extra_opts, d),
                    extra_field_views(st, ch),
                )
                &&& forall|i: int|
                    0 <= i < ch.len() ==> #[trigger] reuse_impls(st, o)[i + 2]
                        == crate::render::nest_from_data_text(d, st.nest_repo.nests@[ch[i] as int].ident@)
            }
            &&& uniform_strategy(st.nest_repo, ch) matches Some(MapStrategy::Delegate(t)) ==> origin_impls(
                st,
                o,
            ) == seq![transform_impl(st, o)] + rest
            &&& uniform_strategy(st.nest_repo, ch) is None ==> origin_impls(st, o) == rest
        }),
{
    let ch = children_of(st.nest_repo, o);
    let rest = match o {
        Some(g) => nested_impls(st, g as int),
        None => Seq::<Seq<char>>::empty(),
    };
    if uniform_strategy(st.nest_repo, ch) is None {
        assert(origin_impls(st, o) =~= rest);
    }
    if uniform_strategy(st.nest_repo, ch) == Some(MapStrategy::Reuse) {
        let r = reuse_impls(st, o);
        assert forall|i: int| 0 <= i < ch.len() implies #[trigger] r[i + 2]
            == crate::render::nest_from_data_text(origin_name(st, o), st.nest_repo.nests@[ch[i] as int].ident@) by {
        }
    }
}

/// A group that has groups of its own is embedded in its origin's extra
/// struct through its wrapper, not its bare struct.
pub proof fn lemma_deep_nesting_indirection(st: State, o: Option<usize>, i: int)
    requires
        0 <= i < children_of(st.nest_repo, o).len(),
        is_parent(st.nest_repo, children_of(st.nest_repo, o)[i] as int),
    ensures
        extra_view(st, o).fields[i].ty == wrapper_name(
            st.wrapper_opts,
            st.nest_repo.nests@[children_of(st.nest_repo, o)[i] as int].ident@,
        ),
{
}

/// Two states that agree on everything that generation reads.
pub open spec fn agree(s1: State, s2: State) -> bool {
    let (r1, r2) = (s1.nest_repo, s2.nest_repo);
    &&& r1.wf()
    &&& s1.global == s2.global
    &&& s1.wrapper_opts == s2.wrapper_opts
    &&& s1.extra_opts == s2.extra_opts
    &&& s1.root_ident == s2.root_ident
    &&& r1.root_ident == r2.root_ident
    &&& r1.nests@.len() == r2.nests@.len()
    &&& forall|k: int|
        0 <= k < r1.nests@.len() ==> {
            &&& (#[trigger] r1.nests@[k]).ident@ == r2.nests@[k].ident@
            &&& r1.nests@[k].parent == r2.nests@[k].parent
            &&& r1.nests@[k].opts == r2.nests@[k].opts
            &&& r1.nests@[k].strategy == r2.nests@[k].strategy
            &&& crate::parse::nest_field_views(r1.nests@[k].fields@) == crate::parse::nest_field_views(
                r2.nests@[k].fields@,
            )
        }
    &&& forall|k: int, c: DerivedStructClass|
        0 <= k < r1.nests@.len() ==> #[trigger] attrs_of_class(r1, k, c) == attrs_of_class(r2, k, c)
}

proof fn lemma_agree_children(s1: State, s2: State, o: Option<usize>, n: int)
    requires
        agree(s1, s2),
        0 <= n <= s1.nest_repo.nests@.len(),
    ensures
        crate::mapping::children_upto(s1.nest_repo.nests@, o, n) == crate::mapping::children_upto(
            s2.nest_repo.nests@,
            o,
            n,
        ),
    decreases n,
{
    if n > 0 {
        lemma_agree_children(s1, s2, o, n - 1);
        assert(s1.nest_repo.nests@[n - 1].parent == s2.nest_repo.nests@[n - 1].parent);
    }
}

proof fn lemma_agree_is_parent(s1: State, s2: State, k: int)
    requires
        agree(s1, s2),
    ensures
        is_parent(s1.nest_repo, k) == is_parent(s2.nest_repo, k),
{
    if is_parent(s1.nest_repo, k) {
        let j = choose|j: int| 0 <= j < s1.nest_repo.nests@.len() && #[trigger] s1.nest_repo.nests@[j].parent == Some(k as usize);
        assert(s2.nest_repo.nests@[j].parent == Some(k as usize));
    }
    if is_parent(s2.nest_repo, k) {
        let j = choose|j: int| 0 <= j < s2.nest_repo.nests@.len() && #[trigger] s2.nest_repo.nests@[j].parent == Some(k as usize);
        assert(s1.nest_repo.nests@[j].parent == Some(k as usize));
    }
}

proof fn lemma_agree_children_attrs(s1: State, s2: State, ch: Seq<usize>, c: DerivedStructClass)
    requires
        agree(s1, s2),
        forall|i: int| 0 <= i < ch.len() ==> #[trigger] ch[i] < s1.nest_repo.nests@.len(),
    ensures
        children_attrs(s1.nest_repo, ch, c) == children_attrs(s2.nest_repo, ch, c),
    decreases ch.len(),
{
    if ch.len() > 0 {
        lemma_agree_children_attrs(s1, s2, ch.drop_last(), c);
        assert(ch.last() == ch[ch.len() - 1]);
        assert(attrs_of_class(s1.nest_repo, ch.last() as int, c) == attrs_of_class(s2.nest_repo, ch.last() as int, c));
    }
}

proof fn lemma_agree_next_origins(s1: State, s2: State, ch: Seq<usize>)
    requires
        agree(s1, s2),
    ensures
        next_origins(s1.nest_repo, ch) == next_origins(s2.nest_repo, ch),
    decreases ch.len(),
{
    if ch.len() > 0 {
        lemma_agree_next_origins(s1, s2, ch.drop_last());
        lemma_agree_is_parent(s1, s2, ch.last() as int);
    }
}

proof fn lemma_agree_nest(s1: State, s2: State, k: int)
    requires
        agree(s1, s2),
        0 <= k < s1.nest_repo.nests@.len(),
    ensures
        nest_view(s1, k) == nest_view(s2, k),
        extra_field_view(s1, k) == extra_field_view(s2, k),
{
    let (r1, r2) = (s1.nest_repo, s2.nest_repo);
    lemma_agree_is_parent(s1, s2, k);
    let (n1, n2) = (r1.nests@[k], r2.nests@[k]);
    assert(n1.ident@ == n2.ident@);
    let f1 = n1.fields@.map_values(|f| nest_field_spec(s1, k, nest_field_view(f)));
    let f2 = n2.fields@.map_values(|f| nest_field_spec(s2, k, nest_field_view(f)));
    let v1 = crate::parse::nest_field_views(n1.fields@);
    let v2 = crate::parse::nest_field_views(n2.fields@);
    assert(v1 == v2);
    assert(v1.len() == n1.fields@.len() && v2.len() == n2.fields@.len());
    assert forall|j: int| 0 <= j < f1.len() implies f1[j] == f2[j] by {
        assert(v1[j] == nest_field_view(n1.fields@[j]));
        assert(v2[j] == nest_field_view(n2.fields@[j]));
    }
    assert(f1 =~= f2);
    assert(attrs_of_class(r1, k, DerivedStructClass::Nest) == attrs_of_class(r2, k, DerivedStructClass::Nest));
}

proof fn lemma_agree_origin(s1: State, s2: State, o: Option<usize>)
    requires
        agree(s1, s2),
        valid_origin(s1, o),
        s1.nest_repo.nests@.len() <= usize::MAX,
    ensures
        children_of(s1.nest_repo, o) == children_of(s2.nest_repo, o),
        origin_structs(s1, o) == origin_structs(s2, o),
        origin_impls(s1, o) == origin_impls(s2, o),
{
    let (r1, r2) = (s1.nest_repo, s2.nest_repo);
    lemma_agree_children(s1, s2, o, r1.nests@.len() as int);
    let ch = children_of(r1, o);
    lemma_children_bounded(r1, o);
    assert(origin_name(s1, o) == origin_name(s2, o)) by {
        if let Some(k) = o {
            assert(r1.nests@[k as int].ident@ == r2.nests@[k as int].ident@);
        }
    }
    assert forall|k: int| 0 <= k < r1.nests@.len() implies #[trigger] nest_view(s1, k) == nest_view(s2, k)
        && extra_field_view(s1, k) == extra_field_view(s2, k) by {
        lemma_agree_nest(s1, s2, k);
    }
    let e1 = extra_field_views(s1, ch);
    let e2 = extra_field_views(s2, ch);
    assert forall|i: int| 0 <= i < e1.len() implies e1[i] == e2[i] by {
        assert(nest_view(s1, ch[i] as int) == nest_view(s2, ch[i] as int));
    }
    assert(e1 =~= e2);
    lemma_agree_children_attrs(s1, s2, ch, DerivedStructClass::Extra);
    lemma_agree_children_attrs(s1, s2, ch, DerivedStructClass::Wrapper);
    assert(extra_view(s1, o) == extra_view(s2, o));
    assert(wrapper_view(s1, o) == wrapper_view(s2, o));
    let m1 = ch.map_values(|c: usize| nest_view(s1, c as int));
    let m2 = ch.map_values(|c: usize| nest_view(s2, c as int));
    assert forall|i: int| 0 <= i < m1.len() implies m1[i] == m2[i] by {
        assert(nest_view(s1, ch[i] as int) == nest_view(s2, ch[i] as int));
    }
    assert(m1 =~= m2);
    assert(origin_structs(s1, o) =~= origin_structs(s2, o));
    assert(uniform_strategy(r1, ch) == uniform_strategy(r2, ch)) by {
        if ch.len() > 0 {
            assert(r1.nests@[ch[0] as int].strategy == r2.nests@[ch[0] as int].strategy);
            assert forall|i: int| 0 <= i < ch.len() implies r1.nests@[#[trigger] ch[i] as int].strategy
                == r2.nests@[ch[i] as int].strategy by {
            }
        }
    }
    assert(ch.map_values(|c: usize| crate::render::nest_from_data_text(origin_name(s1, o), r1.nests@[c as int].ident@))
        =~= ch.map_values(|c: usize| crate::render::nest_from_data_text(origin_name(s2, o), r2.nests@[c as int].ident@)));
    assert(reuse_impls(s1, o) == reuse_impls(s2, o));
    if let Some(g) = o {
        let gi = g as int;
        lemma_agree_children(s1, s2, Some(g), r1.nests@.len() as int);
        assert(r1.nests@[gi].strategy == r2.nests@[gi].strategy);
        assert(origin_ident_of(r1, gi) == origin_ident_of(r2, gi)) by {
            assert(r1.nest_wf(gi));
            if let Some(p) = r1.nests@[gi].parent {
                assert(r1.nests@[p as int].ident@ == r2.nests@[p as int].ident@);
            }
        }
        assert(nested_impls(s1, gi) == nested_impls(s2, gi));
    }
}

proof fn lemma_agree_visit(s1: State, s2: State, q: Seq<Option<usize>>, fuel: nat)
    requires
        agree(s1, s2),
        s1.nest_repo.nests@.len() <= usize::MAX,
        valid_queue(s1, q),
    ensures
        visit(s1.nest_repo, q, fuel) == visit(s2.nest_repo, q, fuel),
        valid_queue(s1, visit(s1.nest_repo, q, fuel)),
    decreases fuel,
{
    if fuel > 0 && q.len() > 0 {
        lemma_agree_origin(s1, s2, q[0]);
        let ch = children_of(s1.nest_repo, q[0]);
        lemma_children_bounded(s1.nest_repo, q[0]);
        lemma_agree_next_origins(s1, s2, ch);
        lemma_next_origins_valid(s1, ch);
        let nq = q.drop_first() + next_origins(s1.nest_repo, ch);
        assert(valid_queue(s1, nq)) by {
            assert forall|i: int| 0 <= i < nq.len() implies valid_origin(s1, #[trigger] nq[i]) by {
                if i < q.len() - 1 {
                    assert(nq[i] == q[i + 1]);
                } else {
                    assert(nq[i] == next_origins(s1.nest_repo, ch)[i - (q.len() - 1)]);
                }
            }
        }
        lemma_agree_visit(s1, s2, nq, (fuel - 1) as nat);
        let v = visit(s1.nest_repo, q, fuel);
        assert(valid_queue(s1, v)) by {
            assert forall|i: int| 0 <= i < v.len() implies valid_origin(s1, #[trigger] v[i]) by {
                if i > 0 {
                    assert(v[i] == visit(s1.nest_repo, nq, (fuel - 1) as nat)[i - 1]);
                }
            }
        }
    }
}

proof fn lemma_agree_emitted(s1: State, s2: State, vs: Seq<Option<usize>>)
    requires
        agree(s1, s2),
        s1.nest_repo.nests@.len() <= usize::MAX,
        valid_queue(s1, vs),
    ensures
        structs_of(s1, vs) == structs_of(s2, vs),
        impls_of(s1, vs) == impls_of(s2, vs),
    decreases vs.len(),
{
    if vs.len() > 0 {
        assert(valid_queue(s1, vs.drop_last())) by {
            assert forall|i: int| 0 <= i < vs.drop_last().len() implies valid_origin(s1, #[trigger] vs.drop_last()[i]) by {
                assert(vs.drop_last()[i] == vs[i]);
            }
        }
        lemma_agree_emitted(s1, s2, vs.drop_last());
        assert(valid_origin(s1, vs[vs.len() - 1]));
        lemma_agree_origin(s1, s2, vs.last());
    }
}

/// Two states built from one configuration agree on what generation reads.
proof fn lemma_built_states_agree(cfg: DeriveItemOpts, s1: State, s2: State)
    requires
        state_of(s1, cfg),
        state_of(s2, cfg),
    ensures
        agree(s1, s2),
{
    let (r1, r2) = (s1.nest_repo, s2.nest_repo);
    assert forall|k: int| 0 <= k < r1.nests@.len() implies {
        &&& (#[trigger] r1.nests@[k]).ident@ == r2.nests@[k].ident@
        &&& r1.nests@[k].parent == r2.nests@[k].parent
        &&& r1.nests@[k].opts == r2.nests@[k].opts
        &&& r1.nests@[k].strategy == r2.nests@[k].strategy
        &&& crate::parse::nest_field_views(r1.nests@[k].fields@) == crate::parse::nest_field_views(
            r2.nests@[k].fields@,
        )
    } by {
        lemma_built_nest_agrees(cfg, s1, s2, k);
    }
}

proof fn lemma_built_nest_agrees(cfg: DeriveItemOpts, s1: State, s2: State, k: int)
    requires
        state_of(s1, cfg),
        state_of(s2, cfg),
        0 <= k < s1.nest_repo.nests@.len(),
    ensures
        s1.nest_repo.nests@[k].ident@ == s2.nest_repo.nests@[k].ident@,
        s1.nest_repo.nests@[k].parent == s2.nest_repo.nests@[k].parent,
        s1.nest_repo.nests@[k].opts == s2.nest_repo.nests@[k].opts,
        s1.nest_repo.nests@[k].strategy == s2.nest_repo.nests@[k].strategy,
        crate::parse::nest_field_views(s1.nest_repo.nests@[k].fields@) == crate::parse::nest_field_views(
            s2.nest_repo.nests@[k].fields@,
        ),
    decreases k,
{
    let (r1, r2) = (s1.nest_repo, s2.nest_repo);
    let (n1, n2) = (r1.nests@[k], r2.nests@[k]);
    assert(r1.nest_wf(k));
    assert(r2.nest_wf(k));
    assert(n1.opts == cfg.nest_opts@[k] && n2.opts == cfg.nest_opts@[k]);
    match (n1.parent, n2.parent) {
        (Some(pa), Some(pb)) => {
            assert(r1.nests@[pa as int].opts == cfg.nest_opts@[pa as int]);
            assert(r2.nests@[pb as int].opts == cfg.nest_opts@[pb as int]);
            assert(r1.nests@[pb as int].opts == cfg.nest_opts@[pb as int]);
            if pa != pb {
                if pa < pb {
                    assert(r1.nests@[pa as int].opts.id@ != r1.nests@[pb as int].opts.id@);
                } else {
                    assert(r1.nests@[pb as int].opts.id@ != r1.nests@[pa as int].opts.id@);
                }
            }
            lemma_built_nest_agrees(cfg, s1, s2, pa as int);
        },
        _ => {},
    }
}

/// Determinism: every state built from one configuration yields the same
/// output text. Since `generate` succeeds exactly when `config_ok` and
/// `generated_names_distinct` hold of the configuration, two calls on one
/// configuration both fail or both return the same bytes.
pub proof fn lemma_generation_deterministic(cfg: DeriveItemOpts, s1: State, s2: State)
    requires
        state_of(s1, cfg),
        state_of(s2, cfg),
        s1.nest_repo.nests@.len() <= usize::MAX,
    ensures
        output_text(s1) == output_text(s2),
{
    lemma_built_states_agree(cfg, s1, s2);
    let q = seq![None::<usize>];
    assert(valid_queue(s1, q));
    let fuel = (s1.nest_repo.nests@.len() + 1) as nat;
    lemma_agree_visit(s1, s2, q, fuel);
    lemma_agree_emitted(s1, s2, visit_order(s1.nest_repo));
}

/// Generation succeeds only on well-formed declarations: every group of a
/// configuration that a state is built from has a non-empty identity,
/// declares at most one strategy and has one, and, when deeply nested,
/// names a group declared before it.
pub proof fn lemma_built_declarations_valid(cfg: DeriveItemOpts, st: State, k: int)
    requires
        state_of(st, cfg),
        0 <= k < cfg.nest_opts@.len(),
    ensures
        cfg.nest_opts@[k].id@.len() > 0,
        !crate::mapping::strategy_conflict(cfg.nest_opts@[k]),
        cfg.nest_opts@[k].from || cfg.nest_opts@[k].transform is Some || cfg.nest_opts@[k].nested is Some
            || cfg.global_opts.transform is Some,
        cfg.nest_opts@[k].nested matches Some(n) ==> exists|j: int|
            0 <= j < k && #[trigger] cfg.nest_opts@[j].id@ == n.origin@,
{
    let r = st.nest_repo;
    assert(r.nest_wf(k));
    assert(r.nests@[k].opts == cfg.nest_opts@[k]);
    if let Some(n) = cfg.nest_opts@[k].nested {
        r.lemma_origin_declared_before(k);
        let j = choose|j: int| 0 <= j < k && #[trigger] r.nests@[j].opts.id@ == r.nests@[k].opts.nested->0.origin@;
        assert(r.nests@[j].opts == cfg.nest_opts@[j]);
    }
}

/// Generation succeeds only when every group that a named field lists is
/// declared: a reference to an undeclared group never yields a state.
pub proof fn lemma_built_references_declared(cfg: DeriveItemOpts, st: State, f: int, j: int)
    requires
        state_of(st, cfg),
        0 <= f < cfg.fields@.len(),
        cfg.fields@[f].ident is Some,
        0 <= j < cfg.fields@[f].nests@.len(),
    ensures
        exists|k: int| 0 <= k < cfg.nest_opts@.len() && #[trigger] cfg.nest_opts@[k].id@ == cfg.fields@[f].nests@[j]@,
{
    let r = st.nest_repo;
    assert(crate::parse::field_refs_known(r.nests@, cfg.fields@[f]));
    assert(crate::mapping::has_id(r.nests@, cfg.fields@[f].nests@[j]@));
    let k = choose|k: int| 0 <= k < r.nests@.len() && #[trigger] r.nests@[k].opts.id@ == cfg.fields@[f].nests@[j]@;
    assert(r.nests@[k].opts == cfg.nest_opts@[k]);
}

/// Every emitted struct is the wrapper or the extra struct of a visited
/// origin, or the struct of a child group of one; so what the laws above
/// state of each group's struct (its fields in declaration order, its
/// embedding through a wrapper) holds of the emitted list.
pub proof fn lemma_emitted_structs(st: State, vs: Seq<Option<usize>>, i: int)
    requires
        0 <= i < structs_of(st, vs).len(),
    ensures
        exists|v: int|
            0 <= v < vs.len() && (structs_of(st, vs)[i] == wrapper_view(st, #[trigger] vs[v])
                || structs_of(st, vs)[i] == extra_view(st, vs[v]) || exists|c: int|
                0 <= c < children_of(st.nest_repo, vs[v]).len() && structs_of(st, vs)[i] == nest_view(
                    st,
                    #[trigger] children_of(st.nest_repo, vs[v])[c] as int,
                )),
    decreases vs.len(),
{
    let prev = structs_of(st, vs.drop_last());
    let last = vs.len() - 1;
    if i < prev.len() {
        lemma_emitted_structs(st, vs.drop_last(), i);
        let v = choose|v: int|
            0 <= v < vs.drop_last().len() && (prev[i] == wrapper_view(st, #[trigger] vs.drop_last()[v])
                || prev[i] == extra_view(st, vs.drop_last()[v]) || exists|c: int|
                0 <= c < children_of(st.nest_repo, vs.drop_last()[v]).len() && prev[i] == nest_view(
                    st,
                    #[trigger] children_of(st.nest_repo, vs.drop_last()[v])[c] as int,
                ));
        assert(vs.drop_last()[v] == vs[v]);
        assert(structs_of(st, vs)[i] == prev[i]);
    } else {
        let o = vs[last];
        assert(vs.last() == o);
        let j = i - prev.len();
        let os = origin_structs(st, o);
        assert(structs_of(st, vs)[i] == os[j]);
        if j == 0 {
            assert(os[j] == wrapper_view(st, vs[last]));
        } else if j == 1 {
            assert(os[j] == extra_view(st, vs[last]));
        } else {
            let c = j - 2;
            assert(os[j] == nest_view(st, children_of(st.nest_repo, vs[last])[c] as int));
        }
    }
}

/// In a state built from `cfg`, each group's struct name is the one its
/// declaration resolves to.
proof fn lemma_built_names(cfg: DeriveItemOpts, st: State, k: int)
    requires
        state_of(st, cfg),
        0 <= k < cfg.nest_opts@.len(),
    ensures
        st.nest_repo.nests@[k].ident@ == crate::parse::decl_name(cfg, k),
    decreases k,
{
    let r = st.nest_repo;
    assert(r.nest_wf(k));
    assert(r.nests@[k].opts == cfg.nest_opts@[k]);
    if let Some(p) = r.nests@[k].parent {
        let pi = p as int;
        lemma_built_names(cfg, st, pi);
        assert(r.nests@[pi].opts == cfg.nest_opts@[pi]);
        let n = cfg.nest_opts@[k].nested->0;
        let origin = n.origin@;
        assert(cfg.nest_opts@[k].nested == Some(n));
        assert(cfg.nest_opts@[pi].id@ == origin);
        assert(0 <= pi < k);
        assert(exists|j: int| 0 <= j < k && #[trigger] cfg.nest_opts@[j].id@ == n.origin@);
        let c = choose|j: int| 0 <= j < k && #[trigger] cfg.nest_opts@[j].id@ == n.origin@;
        assert(crate::parse::decl_origin(cfg, k) == Some(c));
        assert(r.nests@[c].opts == cfg.nest_opts@[c]);
        if c < pi {
            assert(r.nests@[c].opts.id@ != r.nests@[pi].opts.id@);
        } else if pi < c {
            assert(r.nests@[pi].opts.id@ != r.nests@[c].opts.id@);
        }
    }
}

/// A configuration that some state is built from is ok: building succeeds
/// exactly on the configurations that `config_ok` describes.
pub proof fn lemma_built_config_ok(cfg: DeriveItemOpts, st: State)
    requires
        state_of(st, cfg),
    ensures
        config_ok(cfg),
{
    let r = st.nest_repo;
    let nests = cfg.nest_opts@;
    let fs = cfg.fields@;
    assert forall|k: int| 0 <= k < nests.len() implies (#[trigger] nests[k]).id@.len() > 0 by {
        lemma_built_declarations_valid(cfg, st, k);
    }
    assert forall|i: int, j: int| 0 <= i < j < nests.len() implies #[trigger] nests[i].id@ != #[trigger] nests[j].id@ by {
        assert(r.nests@[i].opts == nests[i] && r.nests@[j].opts == nests[j]);
    }
    assert forall|k: int| 0 <= k < nests.len() && (#[trigger] nests[k]).nested is Some implies exists|j: int|
        0 <= j < k && #[trigger] nests[j].id@ == nests[k].nested->0.origin@ by {
        lemma_built_declarations_valid(cfg, st, k);
    }
    assert forall|i: int, j: int| 0 <= i < j < nests.len() implies #[trigger] crate::parse::decl_name(cfg, i)
        != #[trigger] crate::parse::decl_name(cfg, j) by {
        lemma_built_names(cfg, st, i);
        lemma_built_names(cfg, st, j);
        assert(r.nests@[i].ident@ != r.nests@[j].ident@);
    }
    assert forall|k: int| 0 <= k < nests.len() implies !crate::mapping::strategy_conflict(#[trigger] nests[k]) by {
        lemma_built_declarations_valid(cfg, st, k);
    }
    assert forall|k: int| 0 <= k < nests.len() implies (#[trigger] nests[k]).from || nests[k].transform is Some
        || nests[k].nested is Some || cfg.global_opts.transform is Some by {
        lemma_built_declarations_valid(cfg, st, k);
    }
    assert forall|f: int, j: int|
        0 <= f < fs.len() && fs[f].ident is Some && 0 <= j < fs[f].nests@.len() implies crate::parse::declared(
        cfg,
        #[trigger] fs[f].nests@[j]@,
    ) by {
        lemma_built_references_declared(cfg, st, f, j);
    }
    assert forall|f: int, a: int|
        0 <= f < fs.len() && 0 <= a < fs[f].attrs@.len() implies crate::parse::selection_declared(
        cfg,
        #[trigger] fs[f].attrs@[a].nests,
    ) by {
        assert(crate::parse::field_refs_known(r.nests@, fs[f]));
        let sel = fs[f].attrs@[a].nests;
        assert(crate::parse::selection_known(r.nests@, sel));
        if let crate::config::NestSelection::Restricted(ids) = sel {
            assert forall|i: int| 0 <= i < ids@.len() implies crate::parse::declared(cfg, #[trigger] ids@[i]@) by {
                assert(crate::mapping::has_id(r.nests@, ids@[i]@));
                let k = choose|k: int| 0 <= k < r.nests@.len() && #[trigger] r.nests@[k].opts.id@ == ids@[i]@;
                assert(r.nests@[k].opts == nests[k]);
            }
        }
    }
    assert forall|a: int| 0 <= a < cfg.attrs@.len() implies crate::parse::selection_declared(
        cfg,
        #[trigger] cfg.attrs@[a].nests,
    ) by {
        let sel = cfg.attrs@[a].nests;
        assert(crate::parse::selection_known(r.nests@, sel));
        if let crate::config::NestSelection::Restricted(ids) = sel {
            assert forall|i: int| 0 <= i < ids@.len() implies crate::parse::declared(cfg, #[trigger] ids@[i]@) by {
                assert(crate::mapping::has_id(r.nests@, ids@[i]@));
                let k = choose|k: int| 0 <= k < r.nests@.len() && #[trigger] r.nests@[k].opts.id@ == ids@[i]@;
                assert(r.nests@[k].opts == nests[k]);
            }
        }
    }
    assert forall|f: int, j: int|
        0 <= f < fs.len() && fs[f].ident is Some && 0 <= j < fs[f].nests@.len() implies !crate::parse::field_listed_twice(
        fs,
        f,
        #[trigger] fs[f].nests@[j]@,
    ) by {
        let id = fs[f].nests@[j]@;
        if crate::parse::field_listed_twice(fs, f, id) {
            assert(crate::parse::lists_once(fs[f]));
            if exists|a: int, b: int|
                0 <= a < b < fs[f].nests@.len() && #[trigger] fs[f].nests@[a]@ == id && #[trigger] fs[f].nests@[b]@ == id {
                let (a, b) = choose|a: int, b: int|
                    0 <= a < b < fs[f].nests@.len() && #[trigger] fs[f].nests@[a]@ == id && #[trigger] fs[f].nests@[b]@ == id;
                assert(fs[f].nests@[a]@ != fs[f].nests@[b]@);
            } else {
                let g = choose|g: int|
                    0 <= g < f && (#[trigger] fs[g]).ident is Some && fs[f].ident is Some
                        && fs[g].ident->0@ == fs[f].ident->0@ && crate::config::names_contain(fs[g].nests@, id);
                assert(crate::config::names_contain(fs[f].nests@, id));
                lemma_built_references_declared(cfg, st, f, j);
                let k = choose|k: int| 0 <= k < nests.len() && #[trigger] nests[k].id@ == id;
                assert(r.nests@[k].opts == nests[k]);
                assert(r.nest_wf(k));
                let n = fs.len() as int;
                crate::parse::lemma_upto_two(fs, id, n, g, f);
                let up = nest_fields_upto(fs, id, n);
                let (a, b) = choose|a: int, b: int|
                    0 <= a < b < up.len() && (#[trigger] up[a]).0 == fs[g].ident->0@ && (#[trigger] up[b]).0
                        == fs[f].ident->0@;
                let views = crate::parse::nest_field_views(r.nests@[k].fields@);
                assert(views == up);
                assert(views[a] == nest_field_view(r.nests@[k].fields@[a]));
                assert(views[b] == nest_field_view(r.nests@[k].fields@[b]));
                assert(r.nests@[k].fields@[a].name@ != r.nests@[k].fields@[b].name@);
            }
        }
    }
}

/// Every state built from one configuration emits the same structs, so
/// distinct names in one are distinct names in all.
pub proof fn lemma_names_distinct_everywhere(cfg: DeriveItemOpts, st: State)
    requires
        state_of(st, cfg),
        st.nest_repo.nests@.len() <= usize::MAX,
        names_distinct(structs_of(st, visit_order(st.nest_repo)), cfg.ident@),
    ensures
        generated_names_distinct(cfg),
{
    assert forall|s2: State| #[trigger] state_of(s2, cfg) implies names_distinct(
        structs_of(s2, visit_order(s2.nest_repo)),
        cfg.ident@,
    ) by {
        lemma_built_states_agree(cfg, st, s2);
        let q = seq![None::<usize>];
        assert(valid_queue(st, q));
        let fuel = (st.nest_repo.nests@.len() + 1) as nat;
        lemma_agree_visit(st, s2, q, fuel);
        lemma_agree_emitted(st, s2, visit_order(st.nest_repo));
    }
}

} // verus!
