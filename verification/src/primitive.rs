use crate::chars::{
    all_ascii_digits, decimal_value, digit_end, digit_prefix_len, lemma_digit_end, parse_decimal, strip_prefix,
};
use vstd::prelude::*;

verus! {

/// Bits in a byte.
pub const BYTE_BIT_WIDTH: u32 = 8;

/// Something that has a type of the language.
pub trait ToPrimitiveType {
    fn to_type(&self) -> PrimitiveType;
}

/// The types that every type of the language finally lowers to.
#[derive(Debug, PartialEq, Eq, Hash)]
pub enum PrimitiveType {
    Unit,
    Boolean,
    Integer { signed: bool, byte: u8 },
    Float { byte: u8 },
    Struct { elements: Vec<PrimitiveType> },
    Enumeration { variants: Vec<PrimitiveType> },
    Array { type_kind: Box<PrimitiveType>, size: u32 },
    Pointer { point: Box<PrimitiveType> },
    Function { return_type: Box<PrimitiveType>, arguments: Vec<PrimitiveType> },
    Vector { type_kind: Box<PrimitiveType>, dimension: u32 },
    Matrix { type_kind: Box<PrimitiveType>, rows: u32, columns: u32 },
}

/// The mathematical value of a `PrimitiveType`: lists as sequences.
pub enum TypeView {
    Unit,
    Boolean,
    Integer { signed: bool, byte: u8 },
    Float { byte: u8 },
    Struct { elements: Seq<TypeView> },
    Enumeration { variants: Seq<TypeView> },
    Array { type_kind: Box<TypeView>, size: u32 },
    Pointer { point: Box<TypeView> },
    Function { return_type: Box<TypeView>, arguments: Seq<TypeView> },
    Vector { type_kind: Box<TypeView>, dimension: u32 },
    Matrix { type_kind: Box<TypeView>, rows: u32, columns: u32 },
}

pub open spec fn types_view(s: Seq<PrimitiveType>) -> Seq<TypeView>
    decreases s,
{
    if s.len() == 0 {
        Seq::empty()
    } else {
        types_view(s.drop_last()).push(s.last().view_type())
    }
}

impl View for PrimitiveType {
    type V = TypeView;

    open spec fn view(&self) -> TypeView {
        self.view_type()
    }
}

impl PrimitiveType {
    pub open spec fn view_type(&self) -> TypeView
        decreases self,
    {
        match self {
            PrimitiveType::Unit => TypeView::Unit,
            PrimitiveType::Boolean => TypeView::Boolean,
            PrimitiveType::Integer { signed, byte } => TypeView::Integer { signed: *signed, byte: *byte },
            PrimitiveType::Float { byte } => TypeView::Float { byte: *byte },
            PrimitiveType::Struct { elements } => TypeView::Struct { elements: types_view(elements@) },
            PrimitiveType::Enumeration { variants } => TypeView::Enumeration { variants: types_view(variants@) },
            PrimitiveType::Array { type_kind, size } => TypeView::Array { type_kind: Box::new(type_kind.view_type()), size: *size },
            PrimitiveType::Pointer { point } => TypeView::Pointer { point: Box::new(point.view_type()) },
            PrimitiveType::Function { return_type, arguments } => TypeView::Function { return_type: Box::new(return_type.view_type()), arguments: types_view(arguments@) },
            PrimitiveType::Vector { type_kind, dimension } => TypeView::Vector { type_kind: Box::new(type_kind.view_type()), dimension: *dimension },
            PrimitiveType::Matrix { type_kind, rows, columns } => TypeView::Matrix { type_kind: Box::new(type_kind.view_type()), rows: *rows, columns: *columns },
        }
    }
}

impl TypeView {
    pub open spec fn is_scalar(self) -> bool {
        self is Integer || self is Float
    }
}

/// `Some(b)` when every type of `s` is valid.
pub open spec fn all_valid(s: Seq<PrimitiveType>) -> bool
    decreases s,
{
    if s.len() == 0 {
        true
    } else {
        all_valid(s.drop_last()) && s.last().spec_is_valid()
    }
}

/// The number at the start of `s` and the text after it: `None` without digits there
/// or when the number does not fit in a `u32`.
pub open spec fn spec_parse_number(s: Seq<char>) -> Option<(u32, Seq<char>)> {
    let end = digit_end(s, 0);
    if end <= 0 || end > s.len() || decimal_value(s.take(end)) > u32::MAX {
        None
    } else {
        Some((decimal_value(s.take(end)) as u32, s.skip(end)))
    }
}

/// The byte count of a bit width that is a whole number of bytes below 256.
pub open spec fn spec_get_byte(bit_width: u32) -> Option<u8> {
    if bit_width % 8 != 0 || bit_width / 8 > 255 {
        None
    } else {
        Some((bit_width / 8) as u8)
    }
}

/// The integer or float type with the bit width at the start of `s`.
pub open spec fn sized_type_of(s: Seq<char>, signed: Option<bool>) -> Option<TypeView> {
    match spec_parse_number(s) {
        None => None,
        Some((bit_width, _)) => match spec_get_byte(bit_width) {
            None => None,
            Some(byte) => match signed {
                Some(sg) => Some(TypeView::Integer { signed: sg, byte }),
                None => Some(TypeView::Float { byte }),
            },
        },
    }
}

/// The type that a type name such as `i32`, `u8`, `f64`, `vec3f32` or `mat4x4i32` names.
/// `vec` and `mat` without an element type hold `f32`; text after the bit width of a
/// scalar type is ignored.
pub open spec fn spec_type_from_name(s: Seq<char>) -> Option<TypeView>
    decreases s.len(),
{
    proof {
        reveal_strlit("vec");
        reveal_strlit("mat");
    }
    if "i"@.is_prefix_of(s) {
        sized_type_of(s.skip(1), Some(true))
    } else if "u"@.is_prefix_of(s) {
        sized_type_of(s.skip(1), Some(false))
    } else if "f"@.is_prefix_of(s) {
        sized_type_of(s.skip(1), None)
    } else if "vec"@.is_prefix_of(s) {
        let postfix = s.skip(3);
        let end = digit_end(postfix, 0);
        if end <= 0 || end > postfix.len() || decimal_value(postfix.take(end)) > u32::MAX {
            None
        } else {
            let dimension = decimal_value(postfix.take(end)) as u32;
            let spec_ty = postfix.skip(end);
            if spec_ty.len() == 0 {
                Some(TypeView::Vector { type_kind: Box::new(TypeView::Float { byte: 4 }), dimension })
            } else {
                match spec_type_from_name(spec_ty) {
                    Some(ty) => if ty.is_scalar() {
                        Some(TypeView::Vector { type_kind: Box::new(ty), dimension })
                    } else {
                        None
                    },
                    None => None,
                }
            }
        }
    } else if "mat"@.is_prefix_of(s) {
        let postfix = s.skip(3);
        let end = digit_end(postfix, 0);
        if end <= 0 || end > postfix.len() || decimal_value(postfix.take(end)) > u32::MAX {
            None
        } else {
            let columns = decimal_value(postfix.take(end)) as u32;
            let after = postfix.skip(end);
            if after.len() == 0 || after[0] != 'x' {
                None
            } else {
                let r = after.skip(1);
                let end2 = digit_end(r, 0);
                if end2 <= 0 || end2 > r.len() || decimal_value(r.take(end2)) > u32::MAX {
                    None
                } else {
                    let rows = decimal_value(r.take(end2)) as u32;
                    let spec_ty = r.skip(end2);
                    if spec_ty.len() == 0 {
                        Some(TypeView::Matrix { type_kind: Box::new(TypeView::Float { byte: 4 }), rows, columns })
                    } else {
                        match spec_type_from_name(spec_ty) {
                            Some(ty) => if ty.is_scalar() {
                                Some(TypeView::Matrix { type_kind: Box::new(ty), rows, columns })
                            } else {
                                None
                            },
                            None => None,
                        }
                    }
                }
            }
        }
    } else {
        None
    }
}

pub open spec fn opt_type_view(t: Option<PrimitiveType>) -> Option<TypeView> {
    match t {
        Some(x) => Some(x@),
        None => None,
    }
}

impl PrimitiveType {
    /// Whether the type is well formed: sizes and counts are positive, and vectors and
    /// matrices hold scalars.
    pub open spec fn spec_is_valid(&self) -> bool
        decreases self,
    {
        match self {
            PrimitiveType::Unit | PrimitiveType::Boolean => true,
            PrimitiveType::Integer { byte, .. } => *byte > 0,
            PrimitiveType::Float { byte } => *byte > 0,
            PrimitiveType::Struct { elements } => all_valid(elements@),
            PrimitiveType::Enumeration { variants } => all_valid(variants@),
            PrimitiveType::Array { type_kind, size } => type_kind.spec_is_valid() && *size > 0,
            PrimitiveType::Pointer { point } => point.spec_is_valid(),
            PrimitiveType::Function { return_type, arguments } => return_type.spec_is_valid()
                && all_valid(arguments@),
            PrimitiveType::Vector { type_kind, dimension } => (type_kind.view_type() is Integer
                || type_kind.view_type() is Float) && type_kind.spec_is_valid() && *dimension > 0,
            PrimitiveType::Matrix { type_kind, rows, columns } => type_kind.spec_is_valid() && (
            type_kind.view_type() is Integer || type_kind.view_type() is Float) && *rows > 0
                && *columns > 0,
        }
    }

    pub open spec fn default_float_view() -> TypeView {
        (PrimitiveType::Float { byte: 4 }).view_type()
    }

    /// `i32`.
    pub fn default_integer() -> (t: Self)
        ensures
            t == (PrimitiveType::Integer { signed: true, byte: 4 }),
    {
        Self::Integer { signed: true, byte: 4 }
    }

    /// `f32`.
    pub fn default_float() -> (t: Self)
        ensures
            t == (PrimitiveType::Float { byte: 4 }),
    {
        Self::Float { byte: 4 }
    }

    pub fn is_scalar_type(&self) -> (r: bool)
        ensures
            r == (*self is Integer || *self is Float),
            r == self@.is_scalar(),
    {
        matches!(self, Self::Integer { .. } | Self::Float { .. })
    }

    pub fn is_unit(&self) -> (r: bool)
        ensures
            r == (*self is Unit),
    {
        matches!(self, Self::Unit)
    }

    pub fn is_integer(&self) -> (r: bool)
        ensures
            r == (*self is Integer),
    {
        matches!(self, Self::Integer { .. })
    }

    pub fn is_float(&self) -> (r: bool)
        ensures
            r == (*self is Float),
    {
        matches!(self, Self::Float { .. })
    }

    pub fn is_boolean(&self) -> (r: bool)
        ensures
            r == (*self is Boolean),
    {
        matches!(self, Self::Boolean)
    }

    pub fn is_function(&self) -> (r: bool)
        ensures
            r == (*self is Function),
    {
        matches!(self, Self::Function { .. })
    }

    pub fn is_struct(&self) -> (r: bool)
        ensures
            r == (*self is Struct),
    {
        matches!(self, Self::Struct { .. })
    }

    pub fn is_array(&self) -> (r: bool)
        ensures
            r == (*self is Array),
    {
        matches!(self, Self::Array { .. })
    }

    pub fn is_pointer(&self) -> (r: bool)
        ensures
            r == (*self is Pointer),
    {
        matches!(self, Self::Pointer { .. })
    }

    fn all_valid_exec(elements: &Vec<PrimitiveType>) -> (r: bool)
        ensures
            r == all_valid(elements@),
        decreases elements,
    {
        let mut i: usize = 0;
        while i < elements.len()
            invariant
                i <= elements@.len(),
                all_valid(elements@.take(i as int)),
            decreases elements@.len() - i,
        {
            assert(elements@.take(i + 1).drop_last() =~= elements@.take(i as int));
            if !elements[i].is_valid() {
                proof {
                    lemma_all_valid_prefix(elements@, i as int + 1, elements@.len() as int);
                    assert(elements@.take(elements@.len() as int) =~= elements@);
                }
                return false;
            }
            i = i + 1;
        }
        assert(elements@.take(elements@.len() as int) =~= elements@);
        true
    }

    /// Whether the type is well formed: sizes and counts are positive, and vectors and
    /// matrices hold scalars.
    pub fn is_valid(&self) -> (r: bool)
        ensures
            r == self.spec_is_valid(),
        decreases self,
    {
        match self {
            Self::Unit | Self::Boolean => true,
            Self::Integer { byte, .. } => *byte > 0,
            Self::Float { byte } => *byte > 0,
            Self::Struct { elements } => Self::all_valid_exec(elements),
            Self::Enumeration { variants } => Self::all_valid_exec(variants),
            Self::Array { type_kind, size } => {
                if !type_kind.is_valid() {
                    return false;
                }
                *size > 0
            },
            Self::Pointer { point } => point.is_valid(),
            Self::Function { return_type, arguments } => {
                if !return_type.is_valid() {
                    return false;
                }
                Self::all_valid_exec(arguments)
            },
            Self::Vector { type_kind, dimension } => type_kind.is_scalar_type()
                && type_kind.is_valid() && *dimension > 0,
            Self::Matrix { type_kind, rows, columns } => type_kind.is_valid()
                && type_kind.is_scalar_type() && *rows > 0 && *columns > 0,
        }
    }

    /// The type that a type name such as `i32`, `u8`, `f64`, `vec3f32` or `mat4x4i32` names.
    pub fn from(name: &str) -> (res: Option<Self>)
        ensures
            opt_type_view(res) == spec_type_from_name(name@),
        decreases name@.len(),
    {
        proof {
            reveal_strlit("i");
            reveal_strlit("u");
            reveal_strlit("f");
            reveal_strlit("vec");
            reveal_strlit("mat");
        }
        if let Some(postfix) = strip_prefix(name, "i") {
            let (bit_width, _) = match Self::parse_number(postfix) {
                Some(x) => x,
                None => return None,
            };
            let byte = match Self::get_byte(bit_width) {
                Some(b) => b,
                None => return None,
            };
            return Some(Self::Integer { signed: true, byte });
        }
        if let Some(postfix) = strip_prefix(name, "u") {
            let (bit_width, _) = match Self::parse_number(postfix) {
                Some(x) => x,
                None => return None,
            };
            let byte = match Self::get_byte(bit_width) {
                Some(b) => b,
                None => return None,
            };
            return Some(Self::Integer { signed: false, byte });
        }
        if let Some(postfix) = strip_prefix(name, "f") {
            let (bit_width, _) = match Self::parse_number(postfix) {
                Some(x) => x,
                None => return None,
            };
            let byte = match Self::get_byte(bit_width) {
                Some(b) => b,
                None => return None,
            };
            return Some(Self::Float { byte });
        }
        if let Some(postfix) = strip_prefix(name, "vec") {
            return Self::parse_vec(postfix, Ghost(name@));
        }
        if let Some(postfix) = strip_prefix(name, "mat") {
            return Self::parse_matrix(postfix, Ghost(name@));
        }
        None
    }

    // vec2i16, vec3, vec4f32
    fn parse_vec(postfix: &str, Ghost(name): Ghost<Seq<char>>) -> (res: Option<Self>)
        requires
            "vec"@.is_prefix_of(name),
            postfix@ == name.skip(3),
        ensures
            opt_type_view(res) == spec_type_from_name(name),
        decreases name.len(), 0nat,
    {
        proof {
            reveal_strlit("i");
            reveal_strlit("u");
            reveal_strlit("f");
            reveal_strlit("vec");
            reveal_strlit("mat");
            assert(name.subrange(0, 3)[0] == name[0]);
            assert(!"i"@.is_prefix_of(name) && !"u"@.is_prefix_of(name) && !"f"@.is_prefix_of(name)) by {
                assert(name.subrange(0, 1)[0] == name[0]);
            }
        }
        let (dimension, spec_ty) = match Self::parse_number(postfix) {
            Some(x) => x,
            None => return None,
        };
        // without an element type the vector holds f32
        if spec_ty.unicode_len() == 0 {
            let t = Self::Vector { dimension, type_kind: Box::new(PrimitiveType::default_float()) };
            assert(PrimitiveType::default_float_view() == TypeView::Float { byte: 4 });
            assert(t@ == TypeView::Vector { type_kind: Box::new(TypeView::Float { byte: 4 }), dimension });
            return Some(t);
        }
        let ty = match Self::from(spec_ty) {
            Some(t) => t,
            None => return None,
        };
        if !ty.is_scalar_type() {
            return None;
        }
        Some(Self::Vector { dimension, type_kind: Box::new(ty) })
    }

    // columns first, then rows: mat3x3, mat4x3f32, mat4x4i32
    fn parse_matrix(postfix: &str, Ghost(name): Ghost<Seq<char>>) -> (res: Option<Self>)
        requires
            "mat"@.is_prefix_of(name),
            postfix@ == name.skip(3),
        ensures
            opt_type_view(res) == spec_type_from_name(name),
        decreases name.len(), 0nat,
    {
        proof {
            reveal_strlit("i");
            reveal_strlit("u");
            reveal_strlit("f");
            reveal_strlit("vec");
            reveal_strlit("mat");
            assert(name.subrange(0, 3)[0] == name[0]);
            assert(!"i"@.is_prefix_of(name) && !"u"@.is_prefix_of(name) && !"f"@.is_prefix_of(name)
                && !"vec"@.is_prefix_of(name)) by {
                assert(name.subrange(0, 1)[0] == name[0]);
            }
        }
        let (columns, after) = match Self::parse_number(postfix) {
            Some(x) => x,
            None => return None,
        };
        proof {
            reveal_strlit("x");
            reveal_strlit("vec");
            reveal_strlit("mat");
        }
        let r = match strip_prefix(after, "x") {
            Some(r) => r,
            None => return None,
        };
        assert(after@.len() > 0 && after@[0] == 'x') by {
            assert(after@.subrange(0, 1)[0] == after@[0]);
        }
        let (rows, spec_ty) = match Self::parse_number(r) {
            Some(x) => x,
            None => return None,
        };
        // without an element type the matrix holds f32
        if spec_ty.unicode_len() == 0 {
            let t = Self::Matrix { columns, rows, type_kind: Box::new(PrimitiveType::default_float()) };
            assert(PrimitiveType::default_float_view() == TypeView::Float { byte: 4 });
            assert(t@ == TypeView::Matrix { type_kind: Box::new(TypeView::Float { byte: 4 }), rows, columns });
            return Some(t);
        }
        let ty = match Self::from(spec_ty) {
            Some(t) => t,
            None => return None,
        };
        if !ty.is_scalar_type() {
            return None;
        }
        Some(Self::Matrix { columns, rows, type_kind: Box::new(ty) })
    }

    /// The number at the start of `s` and the text after it.
    fn parse_number(s: &str) -> (res: Option<(u32, &str)>)
        ensures
            match spec_parse_number(s@) {
                Some((n, rest)) => res matches Some((m, r)) && m == n && r@ == rest,
                None => res is None,
            },
    {
        let end_index = digit_prefix_len(s);
        proof {
            lemma_digit_end(s@, 0);
        }
        if end_index == 0 {
            return None;
        }
        let len = s.unicode_len();
        let num_str = s.substring_char(0, end_index);
        let number = match parse_decimal(num_str, 0xffff_ffff) {
            Some(n) => n as u32,
            None => return None,
        };
        Some((number, s.substring_char(end_index, len)))
    }

    fn get_byte(bit_width: u32) -> (res: Option<u8>)
        ensures
            res == spec_get_byte(bit_width),
    {
        if bit_width % BYTE_BIT_WIDTH != 0 {
            return None;
        }
        let byte = bit_width / BYTE_BIT_WIDTH;
        if 255 < byte {
            return None;
        }
        Some(byte as u8)
    }
}

proof fn lemma_all_valid_prefix(s: Seq<PrimitiveType>, i: int, j: int)
    requires
        0 <= i <= j <= s.len(),
        !all_valid(s.take(i)),
    ensures
        !all_valid(s.take(j)),
    decreases j - i,
{
    if i < j {
        lemma_all_valid_prefix(s, i, j - 1);
        assert(s.take(j).drop_last() =~= s.take(j - 1));
    }
}

/// A value of one of the integer types.
#[derive(Debug, Clone, Copy, PartialEq, Eq)]
pub enum Integer {
    Int8(i8),
    Int16(i16),
    Int32(i32),
    Int64(i64),
    Uint8(u8),
    Uint16(u16),
    Uint32(u32),
    Uint64(u64),
}

/// The smallest and largest value of the integer type with the given sign and byte count.
pub open spec fn int_bounds(signed: bool, byte: u8) -> Option<(int, int)> {
    if signed {
        if byte == 1 { Some((i8::MIN as int, i8::MAX as int)) }
        else if byte == 2 { Some((i16::MIN as int, i16::MAX as int)) }
        else if byte == 4 { Some((i32::MIN as int, i32::MAX as int)) }
        else if byte == 8 { Some((i64::MIN as int, i64::MAX as int)) }
        else { None }
    } else {
        if byte == 1 { Some((0int, u8::MAX as int)) }
        else if byte == 2 { Some((0int, u16::MAX as int)) }
        else if byte == 4 { Some((0int, u32::MAX as int)) }
        else if byte == 8 { Some((0int, u64::MAX as int)) }
        else { None }
    }
}

/// The value that the text `s` spells for an integer type: an optional `+`, or `-` for a
/// signed type, then one or more ASCII digits; `None` when the value is out of `min..=max`.
pub open spec fn spec_parse_integer(s: Seq<char>, signed: bool, min: int, max: int) -> Option<int> {
    if s.len() == 0 || ((s[0] == '+' || s[0] == '-') && s.len() == 1) {
        None
    } else {
        let negative = s[0] == '-' && signed;
        let digits = if s[0] == '+' || negative { s.drop_first() } else { s };
        if !all_ascii_digits(digits) {
            None
        } else {
            let v = if negative { -(decimal_value(digits) as int) } else { decimal_value(digits) as int };
            if min <= v && v <= max { Some(v) } else { None }
        }
    }
}

impl Integer {
    /// The mathematical value.
    pub open spec fn value(self) -> int {
        match self {
            Integer::Int8(v) => v as int,
            Integer::Int16(v) => v as int,
            Integer::Int32(v) => v as int,
            Integer::Int64(v) => v as int,
            Integer::Uint8(v) => v as int,
            Integer::Uint16(v) => v as int,
            Integer::Uint32(v) => v as int,
            Integer::Uint64(v) => v as int,
        }
    }

    /// Sign and byte count of the value's type.
    pub open spec fn kind(self) -> (bool, u8) {
        match self {
            Integer::Int8(_) => (true, 1u8),
            Integer::Int16(_) => (true, 2u8),
            Integer::Int32(_) => (true, 4u8),
            Integer::Int64(_) => (true, 8u8),
            Integer::Uint8(_) => (false, 1u8),
            Integer::Uint16(_) => (false, 2u8),
            Integer::Uint32(_) => (false, 4u8),
            Integer::Uint64(_) => (false, 8u8),
        }
    }

    /// Whether `v` fits in the type of this value.
    pub open spec fn fits(self, v: int) -> bool {
        match int_bounds(self.kind().0, self.kind().1) {
            Some((lo, hi)) => lo <= v && v <= hi,
            None => false,
        }
    }

    /// Parses `value` as an integer of the integer type `type_kind`. `None` when the type is
    /// not an integer type of 1, 2, 4 or 8 bytes, or when the text is no such integer.
    pub fn new(value: &str, type_kind: &PrimitiveType) -> (res: Option<Self>)
        ensures
            match *type_kind {
                PrimitiveType::Integer { signed, byte } => match int_bounds(signed, byte) {
                    Some((min, max)) => match spec_parse_integer(value@, signed, min, max) {
                        Some(v) => res matches Some(x) && x.value() == v && x.kind() == (signed, byte),
                        None => res is None,
                    },
                    None => res is None,
                },
                _ => res is None,
            },
    {
        let (signed, byte) = match type_kind {
            PrimitiveType::Integer { signed, byte } => (*signed, *byte),
            _ => return None,
        };
        let v = match (signed, byte) {
            (true, 1) => Self::Int8(match parse_int(value, true, 0x80, 0x7f) { Some(v) => v as i8, None => return None }),
            (true, 2) => Self::Int16(match parse_int(value, true, 0x8000, 0x7fff) { Some(v) => v as i16, None => return None }),
            (true, 4) => Self::Int32(match parse_int(value, true, 0x8000_0000, 0x7fff_ffff) { Some(v) => v as i32, None => return None }),
            (true, 8) => Self::Int64(match parse_int(value, true, 0x8000_0000_0000_0000, 0x7fff_ffff_ffff_ffff) { Some(v) => v as i64, None => return None }),
            (false, 1) => Self::Uint8(match parse_int(value, false, 0, 0xff) { Some(v) => v as u8, None => return None }),
            (false, 2) => Self::Uint16(match parse_int(value, false, 0, 0xffff) { Some(v) => v as u16, None => return None }),
            (false, 4) => Self::Uint32(match parse_int(value, false, 0, 0xffff_ffff) { Some(v) => v as u32, None => return None }),
            (false, 8) => Self::Uint64(match parse_int(value, false, 0, 0xffff_ffff_ffff_ffff) { Some(v) => v as u64, None => return None }),
            _ => return None,
        };
        Some(v)
    }

    pub fn is_zero(&self) -> (r: bool)
        ensures
            r == (self.value() == 0),
    {
        match self {
            Self::Int8(v) => *v == 0,
            Self::Int16(v) => *v == 0,
            Self::Int32(v) => *v == 0,
            Self::Int64(v) => *v == 0,
            Self::Uint8(v) => *v == 0,
            Self::Uint16(v) => *v == 0,
            Self::Uint32(v) => *v == 0,
            Self::Uint64(v) => *v == 0,
        }
    }
}

impl ToPrimitiveType for Integer {
    fn to_type(&self) -> (t: PrimitiveType)
        ensures
            t == (PrimitiveType::Integer { signed: self.kind().0, byte: self.kind().1 }),
    {
        match self {
            Self::Int8(_) => PrimitiveType::Integer { signed: true, byte: 1 },
            Self::Int16(_) => PrimitiveType::Integer { signed: true, byte: 2 },
            Self::Int32(_) => PrimitiveType::Integer { signed: true, byte: 4 },
            Self::Int64(_) => PrimitiveType::Integer { signed: true, byte: 8 },
            Self::Uint8(_) => PrimitiveType::Integer { signed: false, byte: 1 },
            Self::Uint16(_) => PrimitiveType::Integer { signed: false, byte: 2 },
            Self::Uint32(_) => PrimitiveType::Integer { signed: false, byte: 4 },
            Self::Uint64(_) => PrimitiveType::Integer { signed: false, byte: 8 },
        }
    }
}

/// Division that rounds toward zero, as Rust's integer division does.
pub open spec fn trunc_div(a: int, b: int) -> int {
    let q = (if a >= 0 { a } else { -a }) / (if b >= 0 { b } else { -b });
    if (a >= 0) == (b >= 0) { q } else { -q }
}

impl Integer {
    /// The sum of two values of the same integer type; the sum must fit in that type.
    pub fn add(&self, rhs: &Integer) -> (res: Integer)
        requires
            self.kind() == rhs.kind(),
            self.fits(self.value() + rhs.value()),
        ensures
            res.kind() == self.kind(),
            res.value() == self.value() + rhs.value(),
    {
        match (self, rhs) {
            (Integer::Int8(a), Integer::Int8(b)) => Integer::Int8(*a + *b),
            (Integer::Int16(a), Integer::Int16(b)) => Integer::Int16(*a + *b),
            (Integer::Int32(a), Integer::Int32(b)) => Integer::Int32(*a + *b),
            (Integer::Int64(a), Integer::Int64(b)) => Integer::Int64(*a + *b),
            (Integer::Uint8(a), Integer::Uint8(b)) => Integer::Uint8(*a + *b),
            (Integer::Uint16(a), Integer::Uint16(b)) => Integer::Uint16(*a + *b),
            (Integer::Uint32(a), Integer::Uint32(b)) => Integer::Uint32(*a + *b),
            (Integer::Uint64(a), Integer::Uint64(b)) => Integer::Uint64(*a + *b),
            _ => vstd::pervasive::unreached(),
        }
    }

    /// The difference of two values of the same integer type; it must fit in that type.
    pub fn sub(&self, rhs: &Integer) -> (res: Integer)
        requires
            self.kind() == rhs.kind(),
            self.fits(self.value() - rhs.value()),
        ensures
            res.kind() == self.kind(),
            res.value() == self.value() - rhs.value(),
    {
        match (self, rhs) {
            (Integer::Int8(a), Integer::Int8(b)) => Integer::Int8(*a - *b),
            (Integer::Int16(a), Integer::Int16(b)) => Integer::Int16(*a - *b),
            (Integer::Int32(a), Integer::Int32(b)) => Integer::Int32(*a - *b),
            (Integer::Int64(a), Integer::Int64(b)) => Integer::Int64(*a - *b),
            (Integer::Uint8(a), Integer::Uint8(b)) => Integer::Uint8(*a - *b),
            (Integer::Uint16(a), Integer::Uint16(b)) => Integer::Uint16(*a - *b),
            (Integer::Uint32(a), Integer::Uint32(b)) => Integer::Uint32(*a - *b),
            (Integer::Uint64(a), Integer::Uint64(b)) => Integer::Uint64(*a - *b),
            _ => vstd::pervasive::unreached(),
        }
    }

    /// The product of two values of the same integer type; it must fit in that type.
    pub fn mul(&self, rhs: &Integer) -> (res: Integer)
        requires
            self.kind() == rhs.kind(),
            self.fits(self.value() * rhs.value()),
        ensures
            res.kind() == self.kind(),
            res.value() == self.value() * rhs.value(),
    {
        match (self, rhs) {
            (Integer::Int8(a), Integer::Int8(b)) => Integer::Int8(*a * *b),
            (Integer::Int16(a), Integer::Int16(b)) => Integer::Int16(*a * *b),
            (Integer::Int32(a), Integer::Int32(b)) => Integer::Int32(*a * *b),
            (Integer::Int64(a), Integer::Int64(b)) => Integer::Int64(*a * *b),
            (Integer::Uint8(a), Integer::Uint8(b)) => Integer::Uint8(*a * *b),
            (Integer::Uint16(a), Integer::Uint16(b)) => Integer::Uint16(*a * *b),
            (Integer::Uint32(a), Integer::Uint32(b)) => Integer::Uint32(*a * *b),
            (Integer::Uint64(a), Integer::Uint64(b)) => Integer::Uint64(*a * *b),
            _ => vstd::pervasive::unreached(),
        }
    }

    /// The quotient, rounded toward zero, of two values of the same integer type; the divisor
    /// is not zero and the quotient must fit in that type.
    pub fn div(&self, rhs: &Integer) -> (res: Integer)
        requires
            self.kind() == rhs.kind(),
            rhs.value() != 0,
            self.fits(trunc_div(self.value(), rhs.value())),
        ensures
            res.kind() == self.kind(),
            res.value() == trunc_div(self.value(), rhs.value()),
    {
        match (self, rhs) {
            (Integer::Int8(a), Integer::Int8(b)) => Integer::Int8(signed_div(*a as i64, *b as i64) as i8),
            (Integer::Int16(a), Integer::Int16(b)) => Integer::Int16(signed_div(*a as i64, *b as i64) as i16),
            (Integer::Int32(a), Integer::Int32(b)) => Integer::Int32(signed_div(*a as i64, *b as i64) as i32),
            (Integer::Int64(a), Integer::Int64(b)) => Integer::Int64(signed_div(*a, *b)),
            (Integer::Uint8(a), Integer::Uint8(b)) => Integer::Uint8(*a / *b),
            (Integer::Uint16(a), Integer::Uint16(b)) => Integer::Uint16(*a / *b),
            (Integer::Uint32(a), Integer::Uint32(b)) => Integer::Uint32(*a / *b),
            (Integer::Uint64(a), Integer::Uint64(b)) => Integer::Uint64(*a / *b),
            _ => vstd::pervasive::unreached(),
        }
    }
}

/// Signed division rounding toward zero, computed on magnitudes.
fn signed_div(a: i64, b: i64) -> (q: i64)
    requires
        b != 0,
        i64::MIN <= trunc_div(a as int, b as int) <= i64::MAX,
    ensures
        q as int == trunc_div(a as int, b as int),
{
    let ua: i128 = if a < 0 { -(a as i128) } else { a as i128 };
    let ub: i128 = if b < 0 { -(b as i128) } else { b as i128 };
    let m = ua / ub;
    if (a >= 0) == (b >= 0) {
        m as i64
    } else {
        (-m) as i64
    }
}

/// Parses an integer whose magnitude is at most `neg_limit` when negative and `max` otherwise.
fn parse_int(s: &str, signed: bool, neg_limit: u64, max: u64) -> (res: Option<i128>)
    ensures
        match spec_parse_integer(s@, signed, -(neg_limit as int), max as int) {
            Some(v) => res == Some(v as i128),
            None => res is None,
        },
{
    let n = s.unicode_len();
    if n == 0 {
        return None;
    }
    let first = s.get_char(0);
    if (first == '+' || first == '-') && n == 1 {
        return None;
    }
    let negative = first == '-' && signed;
    let digits = if first == '+' || negative { s.substring_char(1, n) } else { s };
    assert(s@.drop_first() =~= s@.subrange(1, n as int));
    if negative {
        match parse_decimal(digits, neg_limit) {
            Some(m) => Some(-(m as i128)),
            None => {
                assert(decimal_value(digits@) > neg_limit || !all_ascii_digits(digits@) || digits@.len() == 0);
                None
            },
        }
    } else {
        match parse_decimal(digits, max) {
            Some(m) => Some(m as i128),
            None => None,
        }
    }
}

#[derive(Debug, Clone, Copy, PartialEq, Eq, Hash)]
pub enum BinaryOperator {
    Addition,
    Subtract,
    Multiply,
    Divide,
    Modulo,
    And,
    Or,
    Xor,
    LeftShift,
    RightShift,
}

#[derive(Debug, Clone, Copy, PartialEq, Eq, Hash)]
pub enum ComparisonOperator {
    Equal,  // ==
    NotEqual,  // !=
    LessThan,  // <
    LessThanEqual,  // <=
    GreaterThan,  // >
    GreaterThanEqual,  // >=
}

#[derive(Debug, Clone, Copy, PartialEq, Eq, Hash)]
pub enum LogicalOperator {
    Not,  // !
    And,  // &&
    Or,  // ||
}


/// The view of each type of `s`, element by element.
pub proof fn lemma_types_view(s: Seq<PrimitiveType>)
    ensures
        types_view(s).len() == s.len(),
        forall|i: int| 0 <= i < s.len() ==> #[trigger] types_view(s)[i] == s[i].view_type(),
    decreases s.len(),
{
    if s.len() > 0 {
        lemma_types_view(s.drop_last());
    }
}

proof fn lemma_types_view_step(s: Seq<PrimitiveType>, i: int)
    requires
        0 <= i < s.len(),
    ensures
        types_view(s.take(i + 1)) == types_view(s.take(i)).push(s[i].view_type()),
{
    assert(s.take(i + 1).drop_last() =~= s.take(i));
}

impl PrimitiveType {
    fn clone_types(v: &Vec<PrimitiveType>) -> (res: Vec<PrimitiveType>)
        ensures
            types_view(res@) == types_view(v@),
        decreases v,
    {
        let mut res: Vec<PrimitiveType> = Vec::new();
        let mut i: usize = 0;
        while i < v.len()
            invariant
                i <= v@.len(),
                types_view(res@) == types_view(v@.take(i as int)),
            decreases v@.len() - i,
        {
            let c = v[i].deep_clone();
            proof {
                lemma_types_view_step(v@, i as int);
                assert(res@.push(c).drop_last() =~= res@);
            }
            res.push(c);
            i = i + 1;
        }
        assert(v@.take(v@.len() as int) =~= v@);
        res
    }

    /// A copy of the type, nested types included.
    pub fn deep_clone(&self) -> (res: Self)
        ensures
            res@ == self@,
        decreases self,
    {
        match self {
            Self::Unit => Self::Unit,
            Self::Boolean => Self::Boolean,
            Self::Integer { signed, byte } => Self::Integer { signed: *signed, byte: *byte },
            Self::Float { byte } => Self::Float { byte: *byte },
            Self::Struct { elements } => Self::Struct { elements: Self::clone_types(elements) },
            Self::Enumeration { variants } => Self::Enumeration { variants: Self::clone_types(variants) },
            Self::Array { type_kind, size } => Self::Array {
                type_kind: Box::new(type_kind.deep_clone()),
                size: *size,
            },
            Self::Pointer { point } => Self::Pointer { point: Box::new(point.deep_clone()) },
            Self::Function { return_type, arguments } => Self::Function {
                return_type: Box::new(return_type.deep_clone()),
                arguments: Self::clone_types(arguments),
            },
            Self::Vector { type_kind, dimension } => Self::Vector {
                type_kind: Box::new(type_kind.deep_clone()),
                dimension: *dimension,
            },
            Self::Matrix { type_kind, rows, columns } => Self::Matrix {
                type_kind: Box::new(type_kind.deep_clone()),
                rows: *rows,
                columns: *columns,
            },
        }
    }

    fn same_types(a: &Vec<PrimitiveType>, b: &Vec<PrimitiveType>) -> (r: bool)
        ensures
            r == (types_view(a@) == types_view(b@)),
        decreases a,
    {
        proof {
            lemma_types_view(a@);
            lemma_types_view(b@);
        }
        if a.len() != b.len() {
            return false;
        }
        let mut i: usize = 0;
        while i < a.len()
            invariant
                i <= a@.len(),
                a@.len() == b@.len(),
                types_view(a@).len() == a@.len(),
                types_view(b@).len() == b@.len(),
                forall|j: int| 0 <= j < a@.len() ==> #[trigger] types_view(a@)[j] == a@[j].view_type(),
                forall|j: int| 0 <= j < b@.len() ==> #[trigger] types_view(b@)[j] == b@[j].view_type(),
                forall|j: int| 0 <= j < i ==> a@[j].view_type() == b@[j].view_type(),
            decreases a@.len() - i,
        {
            if !a[i].same_type(&b[i]) {
                assert(types_view(a@)[i as int] != types_view(b@)[i as int]);
                return false;
            }
            i = i + 1;
        }
        assert(types_view(a@) =~= types_view(b@));
        true
    }

    /// Whether the two types are the same, nested types included.
    pub fn same_type(&self, other: &Self) -> (r: bool)
        ensures
            r == (self@ == other@),
        decreases self,
    {
        match (self, other) {
            (Self::Unit, Self::Unit) => true,
            (Self::Boolean, Self::Boolean) => true,
            (Self::Integer { signed: s1, byte: b1 }, Self::Integer { signed: s2, byte: b2 }) => *s1 == *s2 && *b1 == *b2,
            (Self::Float { byte: b1 }, Self::Float { byte: b2 }) => *b1 == *b2,
            (Self::Struct { elements: e1 }, Self::Struct { elements: e2 }) => Self::same_types(e1, e2),
            (Self::Enumeration { variants: v1 }, Self::Enumeration { variants: v2 }) => Self::same_types(v1, v2),
            (Self::Array { type_kind: t1, size: s1 }, Self::Array { type_kind: t2, size: s2 }) => *s1 == *s2 && t1.same_type(t2),
            (Self::Pointer { point: p1 }, Self::Pointer { point: p2 }) => p1.same_type(p2),
            (Self::Function { return_type: r1, arguments: a1 }, Self::Function { return_type: r2, arguments: a2 }) => {
                if !r1.same_type(r2) {
                    return false;
                }
                Self::same_types(a1, a2)
            },
            (Self::Vector { type_kind: t1, dimension: d1 }, Self::Vector { type_kind: t2, dimension: d2 }) => *d1 == *d2 && t1.same_type(t2),
            (Self::Matrix { type_kind: t1, rows: r1, columns: c1 }, Self::Matrix { type_kind: t2, rows: r2, columns: c2 }) => {
                *r1 == *r2 && *c1 == *c2 && t1.same_type(t2)
            },
            _ => false,
        }
    }
}

impl Clone for PrimitiveType {
    /// A copy of the type, nested types included.
    fn clone(&self) -> (res: Self)
        ensures
            res@ == self@,
    {
        self.deep_clone()
    }
}


/// The decimal digit of `d`, for `d < 10`.
pub open spec fn digit_char(d: nat) -> char {
    if d == 0 { '0' } else if d == 1 { '1' } else if d == 2 { '2' } else if d == 3 { '3' }
    else if d == 4 { '4' } else if d == 5 { '5' } else if d == 6 { '6' } else if d == 7 { '7' }
    else if d == 8 { '8' } else { '9' }
}

/// The decimal notation of `n`, without leading zeros.
pub open spec fn decimal(n: nat) -> Seq<char>
    decreases n,
{
    if n < 10 {
        seq![digit_char(n)]
    } else {
        decimal(n / 10).push(digit_char(n % 10))
    }
}

/// The name of a type as the compiler prints it: `int_32`, `float_64`, `bool`,
/// `i32_ptr`, `fn(int_32_bool)->void`, `vec<float_32>3`, `matrix<float_32>4x4`.
pub open spec fn printed_name(t: TypeView) -> Seq<char>
    decreases t,
{
    match t {
        TypeView::Unit => seq!['v', 'o', 'i', 'd'],
        TypeView::Boolean => seq!['b', 'o', 'o', 'l'],
        TypeView::Integer { signed, byte } => if signed {
            seq!['i', 'n', 't', '_'] + decimal(byte as nat * 8)
        } else {
            seq!['u', 'i', 'n', 't', '_'] + decimal(byte as nat * 8)
        },
        TypeView::Float { byte } => seq!['f', 'l', 'o', 'a', 't', '_'] + decimal(byte as nat * 8),
        TypeView::Struct { elements } => names_concat(elements),
        TypeView::Enumeration { variants } => names_concat(variants),
        TypeView::Array { type_kind, size } => printed_name(*type_kind) + seq!['['] + decimal(size as nat) + seq![']'],
        TypeView::Pointer { point } => printed_name(*point) + seq!['_', 'p', 't', 'r'],
        TypeView::Function { return_type, arguments } => seq!['f', 'n', '('] + names_join(arguments)
            + seq![')', '-', '>'] + printed_name(*return_type),
        TypeView::Vector { type_kind, dimension } => seq!['v', 'e', 'c', '<'] + printed_name(*type_kind)
            + seq!['>'] + decimal(dimension as nat),
        TypeView::Matrix { type_kind, rows, columns } => seq!['m', 'a', 't', 'r', 'i', 'x', '<']
            + printed_name(*type_kind) + seq!['>'] + decimal(rows as nat) + seq!['x'] + decimal(columns as nat),
    }
}

/// The names of the types one after another.
pub open spec fn names_concat(s: Seq<TypeView>) -> Seq<char>
    decreases s,
{
    if s.len() == 0 {
        Seq::empty()
    } else {
        names_concat(s.drop_last()) + printed_name(s.last())
    }
}

/// The names of the types with `_` between them.
pub open spec fn names_join(s: Seq<TypeView>) -> Seq<char>
    decreases s,
{
    if s.len() == 0 {
        Seq::empty()
    } else if s.len() == 1 {
        printed_name(s[0])
    } else {
        names_join(s.drop_last()) + seq!['_'] + printed_name(s.last())
    }
}

/// `true` or `false`, as `Debug` prints a `bool`.
pub open spec fn bool_debug(b: bool) -> Seq<char> {
    if b {
        "true"@
    } else {
        "false"@
    }
}

/// The text that `{:?}` prints for a type: the variant's name and its fields in braces,
/// lists in square brackets with `, ` between the items.
pub open spec fn type_debug(t: TypeView) -> Seq<char>
    decreases t,
{
    match t {
        TypeView::Unit => "Unit"@,
        TypeView::Boolean => "Boolean"@,
        TypeView::Integer { signed, byte } => "Integer { signed: "@ + bool_debug(signed) + ", byte: "@
            + decimal(byte as nat) + " }"@,
        TypeView::Float { byte } => "Float { byte: "@ + decimal(byte as nat) + " }"@,
        TypeView::Struct { elements } => "Struct { elements: ["@ + debug_list(elements) + "] }"@,
        TypeView::Enumeration { variants } => "Enumeration { variants: ["@ + debug_list(variants) + "] }"@,
        TypeView::Array { type_kind, size } => "Array { type_kind: "@ + type_debug(*type_kind) + ", size: "@
            + decimal(size as nat) + " }"@,
        TypeView::Pointer { point } => "Pointer { point: "@ + type_debug(*point) + " }"@,
        TypeView::Function { return_type, arguments } => "Function { return_type: "@ + type_debug(*return_type)
            + ", arguments: ["@ + debug_list(arguments) + "] }"@,
        TypeView::Vector { type_kind, dimension } => "Vector { type_kind: "@ + type_debug(*type_kind)
            + ", dimension: "@ + decimal(dimension as nat) + " }"@,
        TypeView::Matrix { type_kind, rows, columns } => "Matrix { type_kind: "@ + type_debug(*type_kind)
            + ", rows: "@ + decimal(rows as nat) + ", columns: "@ + decimal(columns as nat) + " }"@,
    }
}

/// The `{:?}` texts of the types with `, ` between them.
pub open spec fn debug_list(s: Seq<TypeView>) -> Seq<char>
    decreases s,
{
    if s.len() == 0 {
        Seq::empty()
    } else if s.len() == 1 {
        type_debug(s[0])
    } else {
        debug_list(s.drop_last()) + ", "@ + type_debug(s.last())
    }
}

fn digit_str(d: u32) -> (r: &'static str)
    requires
        d < 10,
    ensures
        r@ == seq![digit_char(d as nat)],
{
    proof {
        reveal_strlit("0");
        reveal_strlit("1");
        reveal_strlit("2");
        reveal_strlit("3");
        reveal_strlit("4");
        reveal_strlit("5");
        reveal_strlit("6");
        reveal_strlit("7");
        reveal_strlit("8");
        reveal_strlit("9");
    }
    if d == 0 { "0" } else if d == 1 { "1" } else if d == 2 { "2" } else if d == 3 { "3" }
    else if d == 4 { "4" } else if d == 5 { "5" } else if d == 6 { "6" } else if d == 7 { "7" }
    else if d == 8 { "8" } else { "9" }
}

/// Appends the decimal notation of `n`.
pub fn push_decimal(s: &mut String, n: u32)
    ensures
        final(s)@ == old(s)@ + decimal(n as nat),
    decreases n,
{
    if n >= 10 {
        push_decimal(s, n / 10);
    }
    let d = digit_str(n % 10);
    s.append(d);
    proof {
        if n >= 10 {
            assert(decimal(n as nat) == decimal((n / 10) as nat).push(digit_char((n % 10) as nat)));
        }
    }
}

proof fn lemma_types_view_take(v: Seq<PrimitiveType>, i: int)
    requires
        0 <= i < v.len(),
    ensures
        types_view(v.take(i + 1)).drop_last() == types_view(v.take(i)),
        types_view(v.take(i + 1)).last() == v[i].view_type(),
        types_view(v.take(i + 1)).len() == i + 1,
{
    lemma_types_view_step(v, i);
    lemma_types_view(v.take(i));
}

impl PrimitiveType {
    fn push_names(v: &Vec<PrimitiveType>, s: &mut String, join: bool)
        ensures
            !join ==> final(s)@ == old(s)@ + names_concat(types_view(v@)),
            join ==> final(s)@ == old(s)@ + names_join(types_view(v@)),
        decreases v,
    {
        proof {
            reveal_strlit("_");
        }
        let mut i: usize = 0;
        while i < v.len()
            invariant
                i <= v@.len(),
                !join ==> s@ == old(s)@ + names_concat(types_view(v@.take(i as int))),
                join ==> s@ == old(s)@ + names_join(types_view(v@.take(i as int))),
            decreases v@.len() - i,
        {
            proof {
                lemma_types_view_take(v@, i as int);
                reveal_strlit("_");
            }
            let ghost start = s@;
            if join && i > 0 {
                s.append("_");
            }
            let ghost before = s@;
            v[i].push_name(s);
            proof {
                let t = types_view(v@.take(i + 1));
                let prev = types_view(v@.take(i as int));
                let name = printed_name(v@[i as int].view_type());
                assert(names_concat(t) == names_concat(prev) + name);
                if !join {
                    assert(s@ =~= old(s)@ + names_concat(t));
                } else if i == 0 {
                    assert(t.len() == 1);
                    assert(t[0] == t.last());
                    assert(prev =~= Seq::<TypeView>::empty());
                    assert(names_join(prev) == Seq::<char>::empty());
                    assert(names_join(t) == name);
                    assert(before =~= old(s)@);
                    assert(s@ == before + name);
                    assert(s@ =~= old(s)@ + names_join(t));
                } else {
                    assert(names_join(t) == names_join(prev) + seq!['_'] + name);
                    assert(before == start + seq!['_']);
                    assert(s@ == start + seq!['_'] + name);
                    assert(s@ =~= old(s)@ + names_join(t));
                }
            }
            i = i + 1;
        }
        assert(v@.take(v@.len() as int) =~= v@);
    }

    fn push_debugs(v: &Vec<PrimitiveType>, s: &mut String)
        ensures
            final(s)@ == old(s)@ + debug_list(types_view(v@)),
        decreases v,
    {
        let mut i: usize = 0;
        while i < v.len()
            invariant
                i <= v@.len(),
                s@ == old(s)@ + debug_list(types_view(v@.take(i as int))),
            decreases v@.len() - i,
        {
            proof {
                lemma_types_view_take(v@, i as int);
            }
            let ghost start = s@;
            if i > 0 {
                s.append(", ");
            }
            let ghost before = s@;
            v[i].push_debug(s);
            proof {
                let t = types_view(v@.take(i + 1));
                let prev = types_view(v@.take(i as int));
                let text = type_debug(v@[i as int].view_type());
                if i == 0 {
                    assert(t.len() == 1);
                    assert(t[0] == t.last());
                    assert(prev =~= Seq::<TypeView>::empty());
                    assert(debug_list(t) == text);
                    assert(before =~= old(s)@);
                    assert(s@ =~= old(s)@ + debug_list(t));
                } else {
                    assert(debug_list(t) == debug_list(prev) + ", "@ + text);
                    assert(s@ =~= old(s)@ + debug_list(t));
                }
            }
            i = i + 1;
        }
        assert(v@.take(v@.len() as int) =~= v@);
    }

    /// Appends what `{:?}` prints for the type.
    pub fn push_debug(&self, s: &mut String)
        ensures
            final(s)@ == old(s)@ + type_debug(self@),
        decreases self,
    {
        let ghost s0 = s@;
        match self {
            Self::Unit => s.append("Unit"),
            Self::Boolean => s.append("Boolean"),
            Self::Integer { signed, byte } => {
                s.append("Integer { signed: ");
                s.append(if *signed { "true" } else { "false" });
                s.append(", byte: ");
                push_decimal(s, *byte as u32);
                s.append(" }");
            },
            Self::Float { byte } => {
                s.append("Float { byte: ");
                push_decimal(s, *byte as u32);
                s.append(" }");
            },
            Self::Struct { elements } => {
                s.append("Struct { elements: [");
                Self::push_debugs(elements, s);
                s.append("] }");
            },
            Self::Enumeration { variants } => {
                s.append("Enumeration { variants: [");
                Self::push_debugs(variants, s);
                s.append("] }");
            },
            Self::Array { type_kind, size } => {
                s.append("Array { type_kind: ");
                type_kind.push_debug(s);
                s.append(", size: ");
                push_decimal(s, *size);
                s.append(" }");
            },
            Self::Pointer { point } => {
                s.append("Pointer { point: ");
                point.push_debug(s);
                s.append(" }");
            },
            Self::Function { return_type, arguments } => {
                s.append("Function { return_type: ");
                return_type.push_debug(s);
                s.append(", arguments: [");
                Self::push_debugs(arguments, s);
                s.append("] }");
            },
            Self::Vector { type_kind, dimension } => {
                s.append("Vector { type_kind: ");
                type_kind.push_debug(s);
                s.append(", dimension: ");
                push_decimal(s, *dimension);
                s.append(" }");
            },
            Self::Matrix { type_kind, rows, columns } => {
                s.append("Matrix { type_kind: ");
                type_kind.push_debug(s);
                s.append(", rows: ");
                push_decimal(s, *rows);
                s.append(", columns: ");
                push_decimal(s, *columns);
                s.append(" }");
            },
        }
        assert(s@ =~= s0 + type_debug(self@));
    }

    /// Appends the name of the type.
    pub fn push_name(&self, s: &mut String)
        ensures
            final(s)@ == old(s)@ + printed_name(self@),
        decreases self,
    {
        proof {
            reveal_strlit("void");
            reveal_strlit("bool");
            reveal_strlit("int_");
            reveal_strlit("uint_");
            reveal_strlit("float_");
            reveal_strlit("[");
            reveal_strlit("]");
            reveal_strlit("_ptr");
            reveal_strlit("fn(");
            reveal_strlit(")->");
            reveal_strlit("vec<");
            reveal_strlit(">");
            reveal_strlit("matrix<");
            reveal_strlit("x");
        }
        match self {
            Self::Unit => s.append("void"),
            Self::Boolean => s.append("bool"),
            Self::Integer { signed, byte } => {
                if *signed {
                    s.append("int_");
                } else {
                    s.append("uint_");
                }
                push_decimal(s, (*byte as u32) * BYTE_BIT_WIDTH);
            },
            Self::Float { byte } => {
                s.append("float_");
                push_decimal(s, (*byte as u32) * BYTE_BIT_WIDTH);
            },
            Self::Struct { elements } => Self::push_names(elements, s, false),
            Self::Enumeration { variants } => Self::push_names(variants, s, false),
            Self::Array { type_kind, size } => {
                type_kind.push_name(s);
                s.append("[");
                push_decimal(s, *size);
                s.append("]");
            },
            Self::Pointer { point } => {
                point.push_name(s);
                s.append("_ptr");
            },
            Self::Function { return_type, arguments } => {
                s.append("fn(");
                Self::push_names(arguments, s, true);
                s.append(")->");
                return_type.push_name(s);
            },
            Self::Vector { type_kind, dimension } => {
                s.append("vec<");
                type_kind.push_name(s);
                s.append(">");
                push_decimal(s, *dimension);
            },
            Self::Matrix { type_kind, rows, columns } => {
                s.append("matrix<");
                type_kind.push_name(s);
                s.append(">");
                push_decimal(s, *rows);
                s.append("x");
                push_decimal(s, *columns);
            },
        }
    }

    /// The name of the type as the compiler prints it.
    pub fn to_string(&self) -> (s: String)
        ensures
            s@ == printed_name(self@),
    {
        let mut s = String::new();
        self.push_name(&mut s);
        assert(s@ =~= printed_name(self@));
        s
    }
}

} // verus!
