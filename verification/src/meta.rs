//! The descriptor data model: what one participating type looks like.
//!
//! A descriptor is a plain value: identity, declared name, memory layout,
//! free-form attribute tags, visibility, and (for structured types) the
//! ordered field list.  Every type here has a mathematical view, and the
//! well-formedness conditions of the model are spec functions with
//! executable checkers proved against them.

use vstd::prelude::*;

verus! {

/// Where a type or a field is visible from, as declared at its definition
/// site.  A pure enumeration with no behavior.
#[derive(Clone, Copy, Debug, PartialEq, Eq, Structural)]
pub enum Visibility {
    Private,
    Pub,
    PubCrate,
    PubSuper,
    PubSelf,
}

/// Size in bytes and minimum alignment in bytes of a type's in-memory
/// representation.  Well-formed when the size is a multiple of the
/// alignment and the alignment is a power of two.
#[derive(Clone, Copy, Debug, PartialEq, Eq, Structural)]
pub struct Layout {
    pub size: usize,
    pub align: usize,
}

/// Free-form attribute tags attached to a field; opaque pass-through data.
#[derive(Clone, Debug, PartialEq, Eq)]
pub struct FieldMeta {
    pub meta: Vec<String>,
}

/// Free-form attribute tags attached to a struct; opaque pass-through data.
#[derive(Clone, Debug, PartialEq, Eq)]
pub struct StructMeta {
    pub meta: Vec<String>,
}

/// One field of a structured type: the identity of the field's type, the
/// declared name, attribute tags, byte offset within the owning struct,
/// and visibility.
#[derive(Clone, Debug, PartialEq, Eq)]
pub struct Field {
    pub ty_id: u64,
    pub name: String,
    pub meta: FieldMeta,
    pub offset: usize,
    pub vis: Visibility,
}

/// A structured type: identity, fully qualified declared name, attribute
/// tags, layout, visibility, and the fields in declaration order (not
/// memory order).
#[derive(Clone, Debug, PartialEq, Eq)]
pub struct Struct {
    pub ty_id: u64,
    pub name: String,
    pub meta: StructMeta,
    pub layout: Layout,
    pub vis: Visibility,
    pub fields: Vec<Field>,
}

/// An atomic type with no substructure: identity, declared name, layout.
#[derive(Clone, Debug, PartialEq, Eq)]
pub struct Value {
    pub ty_id: u64,
    pub name: String,
    pub layout: Layout,
}

/// A descriptor for one participating type: either structured or atomic.
#[derive(Clone, Debug, PartialEq, Eq)]
pub enum Type {
    Struct(Struct),
    Value(Value),
}

/// Mathematical view of a [`Field`].
pub struct FieldV {
    pub ty_id: u64,
    pub name: Seq<char>,
    pub meta: Seq<Seq<char>>,
    pub offset: usize,
    pub vis: Visibility,
}

/// Mathematical view of a [`Struct`].
pub struct StructV {
    pub ty_id: u64,
    pub name: Seq<char>,
    pub meta: Seq<Seq<char>>,
    pub layout: Layout,
    pub vis: Visibility,
    pub fields: Seq<FieldV>,
}

/// Mathematical view of a [`Value`].
pub struct ValueV {
    pub ty_id: u64,
    pub name: Seq<char>,
    pub layout: Layout,
}

/// Mathematical view of a [`Type`].
pub enum TypeV {
    Struct(StructV),
    Value(ValueV),
}

impl View for FieldMeta {
    type V = Seq<Seq<char>>;

    open spec fn view(&self) -> Seq<Seq<char>> {
        self.meta@.map_values(|s: String| s@)
    }
}

impl View for StructMeta {
    type V = Seq<Seq<char>>;

    open spec fn view(&self) -> Seq<Seq<char>> {
        self.meta@.map_values(|s: String| s@)
    }
}

impl View for Field {
    type V = FieldV;

    open spec fn view(&self) -> FieldV {
        FieldV {
            ty_id: self.ty_id,
            name: self.name@,
            meta: self.meta@,
            offset: self.offset,
            vis: self.vis,
        }
    }
}

impl View for Struct {
    type V = StructV;

    open spec fn view(&self) -> StructV {
        StructV {
            ty_id: self.ty_id,
            name: self.name@,
            meta: self.meta@,
            layout: self.layout,
            vis: self.vis,
            fields: self.fields@.map_values(|f: Field| f@),
        }
    }
}

impl View for Value {
    type V = ValueV;

    open spec fn view(&self) -> ValueV {
        ValueV { ty_id: self.ty_id, name: self.name@, layout: self.layout }
    }
}

impl View for Type {
    type V = TypeV;

    open spec fn view(&self) -> TypeV {
        match self {
            Type::Struct(s) => TypeV::Struct(s@),
            Type::Value(v) => TypeV::Value(v@),
        }
    }
}

impl TypeV {
    /// The identity of the described type, regardless of variant.
    pub open spec fn id(&self) -> u64 {
        match self {
            TypeV::Struct(s) => s.ty_id,
            TypeV::Value(v) => v.ty_id,
        }
    }

    /// The layout of the described type, regardless of variant.
    pub open spec fn layout(&self) -> Layout {
        match self {
            TypeV::Struct(s) => s.layout,
            TypeV::Value(v) => v.layout,
        }
    }

    /// Well-formedness of the descriptor, by variant.
    pub open spec fn wf(&self) -> bool {
        match self {
            TypeV::Struct(s) => s.wf(),
            TypeV::Value(v) => v.wf(),
        }
    }
}

impl StructV {
    /// A structured descriptor is well formed when its layout is well
    /// formed, every field's byte offset lies strictly inside the struct's
    /// size, and no two fields share a name.
    pub open spec fn wf(&self) -> bool {
        &&& layout_wf(self.layout)
        &&& forall|i: int|
            0 <= i < self.fields.len() ==> (#[trigger] self.fields[i]).offset
                < self.layout.size
        &&& forall|i: int, j: int|
            0 <= i < j < self.fields.len() ==> self.fields[i].name != self.fields[j].name
    }
}

impl ValueV {
    /// An atomic descriptor is well formed when its layout is.
    pub open spec fn wf(&self) -> bool {
        layout_wf(self.layout)
    }
}

/// Whether `n` is a power of two.
pub open spec fn is_power_of_two(n: int) -> bool
    decreases n,
{
    if n <= 0 {
        false
    } else if n == 1 {
        true
    } else {
        n % 2 == 0 && is_power_of_two(n / 2)
    }
}

/// A layout is well formed when the alignment is a power of two and the
/// size is a multiple of the alignment.
pub open spec fn layout_wf(l: Layout) -> bool {
    is_power_of_two(l.align as int) && l.size as int % l.align as int == 0
}

impl Layout {
    /// Decides well-formedness of this layout.
    pub fn is_valid(&self) -> (b: bool)
        ensures
            b == layout_wf(*self),
    {
        if self.align == 0 {
            return false;
        }
        let mut m: usize = self.align;
        while m % 2 == 0
            invariant
                m >= 1,
                is_power_of_two(m as int) == is_power_of_two(self.align as int),
            decreases m,
        {
            m = m / 2;
        }
        m == 1 && self.size % self.align == 0
    }
}

impl Type {
    /// The identity of the described type, regardless of variant.
    pub fn id(&self) -> (r: u64)
        ensures
            r == self@.id(),
    {
        match self {
            Type::Struct(s) => s.ty_id,
            Type::Value(v) => v.ty_id,
        }
    }

    /// The layout of the described type, regardless of variant.
    pub fn layout(&self) -> (r: Layout)
        ensures
            r == self@.layout(),
    {
        match self {
            Type::Struct(s) => s.layout,
            Type::Value(v) => v.layout,
        }
    }

    /// The structured descriptor, when this describes a struct.
    pub fn as_struct(&self) -> (r: Option<&Struct>)
        ensures
            match r {
                Some(s) => self@ is Struct && s@ == self@->Struct_0,
                None => !(self@ is Struct),
            },
    {
        match self {
            Type::Struct(s) => Some(s),
            Type::Value(_) => None,
        }
    }

    /// The atomic descriptor, when this describes an atomic type.
    pub fn as_value(&self) -> (r: Option<&Value>)
        ensures
            match r {
                Some(v) => self@ is Value && v@ == self@->Value_0,
                None => !(self@ is Value),
            },
    {
        match self {
            Type::Struct(_) => None,
            Type::Value(v) => Some(v),
        }
    }

    /// Decides well-formedness of this descriptor.
    pub fn well_formed(&self) -> (b: bool)
        ensures
            b == self@.wf(),
    {
        match self {
            Type::Struct(s) => s.well_formed(),
            Type::Value(v) => v.layout.is_valid(),
        }
    }
}

impl Struct {
    /// Decides well-formedness of this structured descriptor: layout valid,
    /// every field offset strictly inside the struct's size, no two fields
    /// sharing a name.
    pub fn well_formed(&self) -> (b: bool)
        ensures
            b == self@.wf(),
    {
        if !self.layout.is_valid() {
            return false;
        }
        let n = self.fields.len();
        let mut i: usize = 0;
        while i < n
            invariant
                n == self.fields.len(),
                forall|k: int|
                    0 <= k < i ==> (#[trigger] self@.fields[k]).offset < self@.layout.size,
            decreases n - i,
        {
            if self.fields[i].offset >= self.layout.size {
                proof {
                    assert(self@.fields[i as int] == self.fields@[i as int]@);
                }
                return false;
            }
            i = i + 1;
        }
        i = 0;
        while i < n
            invariant
                n == self.fields.len(),
                layout_wf(self@.layout),
                forall|k: int|
                    0 <= k < n ==> (#[trigger] self@.fields[k]).offset < self@.layout.size,
                forall|k: int, l: int|
                    0 <= k < l < n && k < i ==> self@.fields[k].name != self@.fields[l].name,
            decreases n - i,
        {
            let mut j: usize = i + 1;
            while j < n
                invariant
                    i < n,
                    n == self.fields.len(),
                    i < j,
                    forall|l: int| i < l < j ==> self@.fields[i as int].name != self@.fields[l].name,
                decreases n - j,
            {
                if self.fields[i].name == self.fields[j].name {
                    proof {
                        assert(self@.fields[i as int] == self.fields@[i as int]@);
                        assert(self@.fields[j as int] == self.fields@[j as int]@);
                    }
                    return false;
                }
                j = j + 1;
            }
            i = i + 1;
        }
        true
    }
}

/// A type opted into reflection: its statically known descriptor.
///
/// Implementations are supplied by the surrounding program, one per
/// participating type; this crate only consumes the descriptors.
pub trait Reflect {
    /// The descriptor of the implementing type.
    fn meta() -> Type;
}

} // verus!
