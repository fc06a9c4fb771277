//! The configuration model: a validated description of one data struct and of
//! the structs to derive from it.

use vstd::prelude::*;

use crate::naming::{concat, name_or, or_default, upper_camel, upper_camel_of};

verus! {

/// A class of generated struct that a pass-through attribute may target.
#[derive(Debug, Clone, Copy, PartialEq, Eq, Structural)]
pub enum DerivedStructClass {
    Wrapper,
    Nest,
    Extra,
}

/// The keyword that names each class in configuration text.
pub open spec fn class_key(c: DerivedStructClass) -> Seq<char> {
    match c {
        DerivedStructClass::Wrapper => "wrapper"@,
        DerivedStructClass::Nest => "nest"@,
        DerivedStructClass::Extra => "extra"@,
    }
}

impl DerivedStructClass {
    pub fn key(&self) -> (r: String)
        ensures
            r@ == class_key(*self),
    {
        match self {
            DerivedStructClass::Wrapper => String::from_str("wrapper"),
            DerivedStructClass::Nest => String::from_str("nest"),
            DerivedStructClass::Extra => String::from_str("extra"),
        }
    }
}


/// Reads a class keyword; `None` for any other text.
pub fn parse_class(name: &String) -> (r: Option<DerivedStructClass>)
    ensures
        r matches Some(c) ==> class_key(c) == name@,
        r is None ==> forall|c: DerivedStructClass| class_key(c) != name@,
{
    let w = String::from_str("wrapper");
    let e = String::from_str("extra");
    let n = String::from_str("nest");
    if *name == w {
        Some(DerivedStructClass::Wrapper)
    } else if *name == e {
        Some(DerivedStructClass::Extra)
    } else if *name == n {
        Some(DerivedStructClass::Nest)
    } else {
        None
    }
}

/// The set of generated-struct classes that a pass-through attribute targets.
#[derive(Debug, Clone, Copy, PartialEq, Eq, Structural)]
pub struct DerivedStructClassSelection {
    pub wrapper: bool,
    pub extra: bool,
    pub nest: bool,
}

impl View for DerivedStructClassSelection {
    type V = Set<DerivedStructClass>;

    open spec fn view(&self) -> Set<DerivedStructClass> {
        Set::new(
            |c: DerivedStructClass|
                match c {
                    DerivedStructClass::Wrapper => self.wrapper,
                    DerivedStructClass::Extra => self.extra,
                    DerivedStructClass::Nest => self.nest,
                },
        )
    }
}

impl Default for DerivedStructClassSelection {
    /// Every class: the selection of an attribute that names none.
    fn default() -> (r: Self)
        ensures
            forall|c: DerivedStructClass| r@.contains(c),
    {
        DerivedStructClassSelection::all()
    }
}

/// Whether a list of classes names some class twice.
pub open spec fn has_duplicate_class(classes: Seq<DerivedStructClass>) -> bool {
    exists|i: int, j: int| 0 <= i < j < classes.len() && classes[i] == classes[j]
}

impl DerivedStructClassSelection {
    /// Every class: the selection of an attribute that names none.
    pub fn all() -> (r: Self)
        ensures
            forall|c: DerivedStructClass| r@.contains(c),
    {
        DerivedStructClassSelection { wrapper: true, extra: true, nest: true }
    }

    pub fn contains(&self, class: DerivedStructClass) -> (r: bool)
        ensures
            r == self@.contains(class),
    {
        match class {
            DerivedStructClass::Wrapper => self.wrapper,
            DerivedStructClass::Extra => self.extra,
            DerivedStructClass::Nest => self.nest,
        }
    }

    /// Builds the selection of the listed classes. A class listed twice is an
    /// error, which names that class.
    pub fn try_from_classes(classes: &Vec<DerivedStructClass>) -> (r: Result<Self, DerivedStructClass>)
        ensures
            r is Ok <==> !has_duplicate_class(classes@),
            r matches Ok(sel) ==> forall|c: DerivedStructClass|
                sel@.contains(c) <==> classes@.contains(c),
            r matches Err(c) ==> exists|i: int, j: int|
                0 <= i < j < classes@.len() && classes@[i] == c && classes@[j] == c,
    {
        let mut sel = DerivedStructClassSelection { wrapper: false, extra: false, nest: false };
        let mut k: usize = 0;
        while k < classes.len()
            invariant
                k <= classes@.len(),
                !has_duplicate_class(classes@.subrange(0, k as int)),
                forall|c: DerivedStructClass|
                    sel@.contains(c) <==> classes@.subrange(0, k as int).contains(c),
            decreases classes@.len() - k,
        {
            let c = classes[k];
            if sel.contains(c) {
                assert(classes@.subrange(0, k as int).contains(c));
                let ghost i = choose|i: int| 0 <= i < k && classes@.subrange(0, k as int)[i] == c;
                assert(classes@[i] == c && classes@[k as int] == c);
                return Err(c);
            }
            let ghost before = sel;
            match c {
                DerivedStructClass::Wrapper => { sel.wrapper = true; },
                DerivedStructClass::Extra => { sel.extra = true; },
                DerivedStructClass::Nest => { sel.nest = true; },
            }
            assert(forall|d: DerivedStructClass| sel@.contains(d) <==> (before@.contains(d) || d == c));
            assert(classes@.subrange(0, k + 1) == classes@.subrange(0, k as int).push(c));
            let ghost nxt = classes@.subrange(0, k + 1);
            let ghost sub = classes@.subrange(0, k as int);
            assert(nxt[k as int] == c);
            assert forall|d: DerivedStructClass| sel@.contains(d) <==> nxt.contains(d) by {
                if nxt.contains(d) {
                    let i = choose|i: int| 0 <= i < nxt.len() && nxt[i] == d;
                    if i < k {
                        assert(sub[i] == nxt[i]);
                    }
                }
                if sub.contains(d) {
                    let i = choose|i: int| 0 <= i < sub.len() && sub[i] == d;
                    assert(nxt[i] == sub[i]);
                }
            }
            assert forall|i: int, j: int| 0 <= i < j < k + 1 implies
                #[trigger] nxt[i] != #[trigger] nxt[j] by {
                if j == k {
                    assert(classes@.subrange(0, k as int)[i] == nxt[i]);
                } else {
                    assert(classes@.subrange(0, k as int)[i] == nxt[i]);
                    assert(classes@.subrange(0, k as int)[j] == nxt[j]);
                }
            }
            k = k + 1;
        }
        assert(classes@.subrange(0, classes@.len() as int) == classes@);
        Ok(sel)
    }
}

/// Which groups a pass-through annotation applies to.
#[derive(Debug, Clone)]
pub enum NestSelection {
    /// Every group associated with the annotated declaration.
    Unrestricted,
    /// Only the groups with these identities.
    Restricted(Vec<String>),
}

/// Whether a selection admits the group with identity `id`.
pub open spec fn selects(sel: NestSelection, id: Seq<char>) -> bool {
    match sel {
        NestSelection::Unrestricted => true,
        NestSelection::Restricted(ids) => names_contain(ids@, id),
    }
}

/// Whether a list of names holds `name`.
pub open spec fn names_contain(names: Seq<String>, name: Seq<char>) -> bool {
    exists|i: int| 0 <= i < names.len() && #[trigger] names[i]@ == name
}

impl NestSelection {
    pub fn admits(&self, id: &String) -> (r: bool)
        ensures
            r == selects(*self, id@),
    {
        match self {
            NestSelection::Unrestricted => true,
            NestSelection::Restricted(ids) => {
                let mut i: usize = 0;
                while i < ids.len()
                    invariant
                        i <= ids@.len(),
                        *self == NestSelection::Restricted(*ids),
                        forall|j: int| 0 <= j < i ==> ids@[j]@ != id@,
                    decreases ids@.len() - i,
                {
                    let same = ids[i] == *id;
                    assert(same == (ids@[i as int]@ == id@));
                    if same {
                        assert(0 <= i < ids@.len() && ids@[i as int]@ == id@);
                        return true;
                    }
                    i = i + 1;
                }
                false
            },
        }
    }
}


/// Options that hold for every struct generated from one data struct.
#[derive(Debug, Clone)]
pub struct GlobalOpts {
    /// The shared transformer type of groups that name none of their own.
    pub transform: Option<String>,
    /// Derive `schemars::JsonSchema` on every generated struct.
    pub schema: bool,
    /// Implies `schema`; marks generated structs `#[schemars(inline)]`.
    pub inline: bool,
    /// Treat every group as optional.
    pub all_optional: bool,
}

impl GlobalOpts {
    pub fn schema(&self) -> (r: bool)
        ensures
            r == self.schema,
    {
        self.schema
    }

    pub fn inline(&self) -> (r: bool)
        ensures
            r == self.inline,
    {
        self.inline
    }

    pub fn all_optional(&self) -> (r: bool)
        ensures
            r == self.all_optional,
    {
        self.all_optional
    }
}

/// Options of the wrapper structs.
#[derive(Debug, Clone)]
pub struct WrapperOpts {
    /// Suffix of every wrapper's name; `Wrapper` by default.
    pub struct_suffix: Option<String>,
    /// Derives added to the baseline ones.
    pub derive: Vec<String>,
    pub doc: Option<String>,
    /// Name of the field that holds the data; `data` by default.
    pub data_field_name: Option<String>,
    pub data_field_doc: Option<String>,
    /// Whether the data field is serialized flattened; yes by default.
    pub flatten: Option<bool>,
    /// Name of the field that holds the extra struct; `extra` by default.
    pub extra_field_name: Option<String>,
    pub extra_field_doc: Option<String>,
}

pub open spec fn wrapper_suffix(o: WrapperOpts) -> Seq<char> {
    or_default(o.struct_suffix, "Wrapper"@)
}

pub open spec fn wrapper_name(o: WrapperOpts, data: Seq<char>) -> Seq<char> {
    data + wrapper_suffix(o)
}

pub open spec fn wrapper_data_field(o: WrapperOpts) -> Seq<char> {
    or_default(o.data_field_name, "data"@)
}

pub open spec fn wrapper_extra_field(o: WrapperOpts) -> Seq<char> {
    or_default(o.extra_field_name, "extra"@)
}

pub open spec fn wrapper_flatten(o: WrapperOpts) -> bool {
    match o.flatten {
        Some(b) => b,
        None => true,
    }
}

impl WrapperOpts {
    pub fn struct_name_suffix(&self) -> (r: String)
        ensures
            r@ == wrapper_suffix(*self),
    {
        name_or(&self.struct_suffix, "Wrapper")
    }

    /// The name of the wrapper of the struct named `data_ident`.
    pub fn struct_name(&self, data_ident: &String) -> (r: String)
        ensures
            r@ == wrapper_name(*self, data_ident@),
    {
        let suffix = self.struct_name_suffix();
        concat(data_ident, &suffix)
    }

    pub fn data_field_name(&self) -> (r: String)
        ensures
            r@ == wrapper_data_field(*self),
    {
        name_or(&self.data_field_name, "data")
    }

    pub fn flatten(&self) -> (r: bool)
        ensures
            r == wrapper_flatten(*self),
    {
        match self.flatten {
            Some(b) => b,
            None => true,
        }
    }

    pub fn extra_field_name(&self) -> (r: String)
        ensures
            r@ == wrapper_extra_field(*self),
    {
        name_or(&self.extra_field_name, "extra")
    }
}

/// Options of the extra structs.
#[derive(Debug, Clone)]
pub struct ExtraOpts {
    /// Suffix of every extra struct's name; `Extra` by default.
    pub struct_suffix: Option<String>,
    /// Derives added to the baseline ones.
    pub derive: Vec<String>,
    pub doc: Option<String>,
}

pub open spec fn extra_suffix(o: ExtraOpts) -> Seq<char> {
    or_default(o.struct_suffix, "Extra"@)
}

pub open spec fn extra_name(o: ExtraOpts, data: Seq<char>) -> Seq<char> {
    data + extra_suffix(o)
}

impl ExtraOpts {
    pub fn struct_name_suffix(&self) -> (r: String)
        ensures
            r@ == extra_suffix(*self),
    {
        name_or(&self.struct_suffix, "Extra")
    }

    /// The name of the extra struct of the struct named `parent_data_ident`.
    pub fn struct_name(&self, parent_data_ident: &String) -> (r: String)
        ensures
            r@ == extra_name(*self, parent_data_ident@),
    {
        let suffix = self.struct_name_suffix();
        concat(parent_data_ident, &suffix)
    }
}

/// The origin of a deeply nested group.
#[derive(Debug, Clone)]
pub struct DeeplyNestedOpts {
    /// Identity of the group that this group's data is sourced from.
    pub origin: String,
}

/// One group ("nest") declaration.
#[derive(Debug, Clone)]
pub struct NestOpts {
    /// The group's identity, unique among all groups of the data struct.
    pub id: String,
    /// Name of the field that embeds the group in its parent's extra
    /// struct; the identity by default.
    pub field_name: Option<String>,
    /// Name of the group's struct, overriding the default.
    pub rename: Option<String>,
    pub derive: Vec<String>,
    /// Type of every field of the group's struct.
    pub field_type: String,
    /// Present when the group is sourced from another group.
    pub nested: Option<DeeplyNestedOpts>,
    /// Reuse an existing `From<&Origin>` conversion.
    pub from: bool,
    /// Delegate to this transformer type.
    pub transform: Option<String>,
    pub struct_doc: Option<String>,
    /// Documentation of the field that embeds the group.
    pub parent_field_doc: Option<String>,
    /// Whether the embedding field is an `Option`.
    pub optional: bool,
}

pub open spec fn nest_field_name(o: NestOpts) -> Seq<char> {
    or_default(o.field_name, o.id@)
}

/// `{Origin}{Nested}{UpperCamel(field)}`, with `Nested` only under the root.
pub open spec fn default_struct_name(origin: Seq<char>, under_root: bool, field: Seq<char>) -> Seq<char> {
    origin + (if under_root { "Nested"@ } else { Seq::empty() }) + upper_camel_of(field)
}

pub open spec fn nest_struct_name(o: NestOpts, origin: Seq<char>) -> Seq<char> {
    match o.rename {
        Some(r) => r@,
        None => default_struct_name(origin, o.nested is None, nest_field_name(o)),
    }
}

impl NestOpts {
    pub fn field_name(&self) -> (r: String)
        ensures
            r@ == nest_field_name(*self),
    {
        match &self.field_name {
            Some(n) => n.clone(),
            None => self.id.clone(),
        }
    }

    pub fn build_struct_name_suffix(field_name: &String) -> (r: String)
        ensures
            r@ == upper_camel_of(field_name@),
    {
        upper_camel(field_name)
    }

    pub fn build_default_struct_name(origin_ident: &String, under_root: bool, field_name: &String) -> (r: String)
        ensures
            r@ == default_struct_name(origin_ident@, under_root, field_name@),
    {
        let region = if under_root { String::from_str("Nested") } else { String::new() };
        let suffix = Self::build_struct_name_suffix(field_name);
        let head = concat(origin_ident, &region);
        concat(&head, &suffix)
    }

    /// The default name of the group's struct, where `origin_ident` names
    /// the struct that its data is sourced from.
    pub fn struct_name_default(&self, origin_ident: &String) -> (r: String)
        ensures
            r@ == default_struct_name(origin_ident@, self.nested is None, nest_field_name(*self)),
    {
        let field = self.field_name();
        Self::build_default_struct_name(origin_ident, self.nested.is_none(), &field)
    }

    /// The identity of the group this group is sourced from; `None` when it
    /// is sourced from the data struct.
    pub fn origin(&self) -> (r: Option<&String>)
        ensures
            r matches Some(o) ==> self.nested matches Some(n) && *o == n.origin,
            r is None <==> self.nested is None,
    {
        match &self.nested {
            Some(n) => Some(&n.origin),
            None => None,
        }
    }

    /// The name of the group's struct, where `origin_ident` names the struct
    /// that its data is sourced from.
    pub fn struct_name(&self, origin_ident: &String) -> (r: String)
        ensures
            r@ == nest_struct_name(*self, origin_ident@),
    {
        match &self.rename {
            Some(n) => n.clone(),
            None => {
                let field = self.field_name();
                Self::build_default_struct_name(origin_ident, self.nested.is_none(), &field)
            },
        }
    }

    pub fn optional(&self) -> (r: bool)
        ensures
            r == self.optional,
    {
        self.optional
    }
}

/// An attribute copied onto generated structs.
#[derive(Debug, Clone)]
pub struct PassthroughStructAttribute {
    /// The attribute's contents, as written inside `#[...]`.
    pub attr: String,
    pub nests: NestSelection,
    pub class: DerivedStructClassSelection,
}

/// An attribute copied from a data field onto the fields that groups make of it.
#[derive(Debug, Clone)]
pub struct PassthroughFieldAttribute {
    pub attr: String,
    pub nests: NestSelection,
}

/// One field of the data struct.
#[derive(Debug, Clone)]
pub struct DeriveItemFieldOpts {
    /// `None` for a tuple field, which no group can hold.
    pub ident: Option<String>,
    pub attrs: Vec<PassthroughFieldAttribute>,
    /// Identities of the groups that hold this field, in order.
    pub nests: Vec<String>,
}

/// The whole configuration of one data struct.
#[derive(Debug, Clone)]
pub struct DeriveItemOpts {
    pub ident: String,
    pub fields: Vec<DeriveItemFieldOpts>,
    pub attrs: Vec<PassthroughStructAttribute>,
    pub global_opts: GlobalOpts,
    pub wrapper_opts: WrapperOpts,
    pub extra_opts: ExtraOpts,
    pub nest_opts: Vec<NestOpts>,
}

} // verus!
