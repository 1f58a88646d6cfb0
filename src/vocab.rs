//! The closed vocabulary of layout directives and its canonical spellings.

use vstd::prelude::*;

verus! {

/// A fixed-width integer representation.
#[derive(Clone, Copy, Debug, PartialEq, Eq, Structural)]
pub enum IntRepr {
    I8,
    I16,
    I32,
    I64,
    I128,
    U8,
    U16,
    U32,
    U64,
    U128,
}

/// The primary layout of an aggregate.
#[derive(Clone, Copy, Debug, PartialEq, Eq, Structural)]
pub enum BaseRepr {
    C,
    /// Single-field pass-through; only meaningful for structs.
    Transparent,
    /// Layout of the given integer; only meaningful for enums.
    Int(IntRepr),
}

/// A layout adjustment applied on top of the base representation.
#[derive(Clone, Debug)]
pub enum Modifier {
    /// Remove padding between fields.
    Packed,
    /// Raise the alignment to the value of the integer literal, kept as written.
    Align(String),
}

impl PartialEq for Modifier {
    fn eq(&self, other: &Modifier) -> (r: bool) {
        match (self, other) {
            (Modifier::Packed, Modifier::Packed) => true,
            (Modifier::Align(a), Modifier::Align(b)) => *a == *b,
            _ => false,
        }
    }
}

impl vstd::std_specs::cmp::PartialEqSpecImpl for Modifier {
    open spec fn obeys_eq_spec() -> bool {
        true
    }

    open spec fn eq_spec(&self, other: &Modifier) -> bool {
        match (self, other) {
            (Modifier::Packed, Modifier::Packed) => true,
            (Modifier::Align(a), Modifier::Align(b)) => a@ == b@,
            _ => false,
        }
    }
}

/// The canonical spelling of an integer representation.
pub open spec fn int_repr_name(r: IntRepr) -> Seq<char> {
    match r {
        IntRepr::I8 => "i8"@,
        IntRepr::I16 => "i16"@,
        IntRepr::I32 => "i32"@,
        IntRepr::I64 => "i64"@,
        IntRepr::I128 => "i128"@,
        IntRepr::U8 => "u8"@,
        IntRepr::U16 => "u16"@,
        IntRepr::U32 => "u32"@,
        IntRepr::U64 => "u64"@,
        IntRepr::U128 => "u128"@,
    }
}

/// The canonical spelling of a base representation.
pub open spec fn base_repr_name(b: BaseRepr) -> Seq<char> {
    match b {
        BaseRepr::C => "C"@,
        BaseRepr::Transparent => "transparent"@,
        BaseRepr::Int(i) => int_repr_name(i),
    }
}

/// The canonical text of a modifier: `packed`, or `align(n)` with the
/// literal as written.
pub open spec fn modifier_text(m: Modifier) -> Seq<char> {
    match m {
        Modifier::Packed => "packed"@,
        Modifier::Align(n) => "align("@ + n@ + ")"@,
    }
}

/// The base representation that an identifier names, if any: the one table
/// of recognized base spellings, matched exactly and case-sensitively.
pub open spec fn base_repr_for(ident: Seq<char>) -> Option<BaseRepr> {
    if ident == "transparent"@ {
        Some(BaseRepr::Transparent)
    } else if ident == "C"@ {
        Some(BaseRepr::C)
    } else if ident == "i8"@ {
        Some(BaseRepr::Int(IntRepr::I8))
    } else if ident == "i16"@ {
        Some(BaseRepr::Int(IntRepr::I16))
    } else if ident == "i32"@ {
        Some(BaseRepr::Int(IntRepr::I32))
    } else if ident == "i64"@ {
        Some(BaseRepr::Int(IntRepr::I64))
    } else if ident == "i128"@ {
        Some(BaseRepr::Int(IntRepr::I128))
    } else if ident == "u8"@ {
        Some(BaseRepr::Int(IntRepr::U8))
    } else if ident == "u16"@ {
        Some(BaseRepr::Int(IntRepr::U16))
    } else if ident == "u32"@ {
        Some(BaseRepr::Int(IntRepr::U32))
    } else if ident == "u64"@ {
        Some(BaseRepr::Int(IntRepr::U64))
    } else if ident == "u128"@ {
        Some(BaseRepr::Int(IntRepr::U128))
    } else {
        None
    }
}

/// Whether two texts hold the same characters.
pub(crate) fn same_text(a: &str, b: &str) -> (r: bool)
    ensures
        r == (a@ == b@),
{
    let n = a.unicode_len();
    if n != b.unicode_len() {
        return false;
    }
    let mut i: usize = 0;
    while i < n
        invariant
            n == a@.len(),
            n == b@.len(),
            i <= n,
            a@.subrange(0, i as int) == b@.subrange(0, i as int),
        decreases n - i,
    {
        if a.get_char(i) != b.get_char(i) {
            return false;
        }
        assert(a@.subrange(0, i + 1) == a@.subrange(0, i as int).push(a@[i as int]));
        assert(b@.subrange(0, i + 1) == b@.subrange(0, i as int).push(b@[i as int]));
        i = i + 1;
    }
    assert(a@ == a@.subrange(0, n as int));
    assert(b@ == b@.subrange(0, n as int));
    true
}

impl IntRepr {
    /// The canonical spelling, such as `u32`.
    pub fn name(&self) -> (r: &'static str)
        ensures
            r@ == int_repr_name(*self),
    {
        match self {
            IntRepr::I8 => "i8",
            IntRepr::I16 => "i16",
            IntRepr::I32 => "i32",
            IntRepr::I64 => "i64",
            IntRepr::I128 => "i128",
            IntRepr::U8 => "u8",
            IntRepr::U16 => "u16",
            IntRepr::U32 => "u32",
            IntRepr::U64 => "u64",
            IntRepr::U128 => "u128",
        }
    }
}

impl BaseRepr {
    /// The canonical spelling, such as `C` or `u32`.
    pub fn name(&self) -> (r: &'static str)
        ensures
            r@ == base_repr_name(*self),
    {
        match self {
            BaseRepr::C => "C",
            BaseRepr::Transparent => "transparent",
            BaseRepr::Int(i) => i.name(),
        }
    }

    /// Looks an identifier up in the table of base spellings.
    pub fn from_ident(ident: &str) -> (r: Option<BaseRepr>)
        ensures
            r == base_repr_for(ident@),
    {
        if same_text(ident, "transparent") {
            Some(BaseRepr::Transparent)
        } else if same_text(ident, "C") {
            Some(BaseRepr::C)
        } else if same_text(ident, "i8") {
            Some(BaseRepr::Int(IntRepr::I8))
        } else if same_text(ident, "i16") {
            Some(BaseRepr::Int(IntRepr::I16))
        } else if same_text(ident, "i32") {
            Some(BaseRepr::Int(IntRepr::I32))
        } else if same_text(ident, "i64") {
            Some(BaseRepr::Int(IntRepr::I64))
        } else if same_text(ident, "i128") {
            Some(BaseRepr::Int(IntRepr::I128))
        } else if same_text(ident, "u8") {
            Some(BaseRepr::Int(IntRepr::U8))
        } else if same_text(ident, "u16") {
            Some(BaseRepr::Int(IntRepr::U16))
        } else if same_text(ident, "u32") {
            Some(BaseRepr::Int(IntRepr::U32))
        } else if same_text(ident, "u64") {
            Some(BaseRepr::Int(IntRepr::U64))
        } else if same_text(ident, "u128") {
            Some(BaseRepr::Int(IntRepr::U128))
        } else {
            None
        }
    }
}

impl Modifier {
    /// The canonical text: `packed`, or `align(n)`.
    pub fn render(&self) -> (r: String)
        ensures
            r@ == modifier_text(*self),
    {
        match self {
            Modifier::Packed => String::from_str("packed"),
            Modifier::Align(n) => {
                let mut s = String::from_str("align(");
                s.append(n.as_str());
                s.append(")");
                s
            },
        }
    }
}

} // verus!
