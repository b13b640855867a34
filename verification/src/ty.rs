use vstd::prelude::*;
use crate::bytecode::ConstantValue;
use crate::name_map::NameMap;
use crate::operator::Operator;

verus! {

/// Identifies a class type in the compiler's type arena.
#[derive(Debug, Clone, Copy, PartialEq, Eq, Hash, Structural)]
pub struct TypeId(pub usize);

/// Static types of the language.
#[derive(Debug)]
pub enum Type {
    U8,
    I8,
    U16,
    I16,
    U32,
    I32,
    U64,
    I64,
    F32,
    F64,
    USize,
    Bool,
    String,
    Empty,
    /// Not known yet (to be inferred).
    Unknown,
    Array(Box<Type>),
    TypeVar(String),
    Class(TypeId),
    Function(Box<FunctionType>),
    Qualified { inner: Box<Type>, mutable: bool, borrowed: bool, moved: bool },
    Generic { name: String, args: Vec<Type> },
}

#[derive(Debug)]
pub struct FunctionType {
    pub params: Vec<Type>,
    pub return_type: Box<Type>,
}

/// The mathematical value of a `Type`: names are character sequences and
/// argument lists are sequences.
pub enum TypeV {
    U8,
    I8,
    U16,
    I16,
    U32,
    I32,
    U64,
    I64,
    F32,
    F64,
    USize,
    Bool,
    String,
    Empty,
    Unknown,
    Array(Box<TypeV>),
    TypeVar(Seq<char>),
    Class(TypeId),
    Function(Box<FunctionTypeV>),
    Qualified { inner: Box<TypeV>, mutable: bool, borrowed: bool, moved: bool },
    Generic { name: Seq<char>, args: Seq<TypeV> },
}

pub struct FunctionTypeV {
    pub params: Seq<TypeV>,
    pub return_type: Box<TypeV>,
}

pub open spec fn view_types(s: Seq<Type>) -> Seq<TypeV>
    decreases s,
{
    if s.len() == 0 {
        Seq::empty()
    } else {
        view_types(s.drop_last()).push(s.last().view())
    }
}

pub proof fn lemma_view_types(s: Seq<Type>)
    ensures
        view_types(s).len() == s.len(),
        forall|i: int| 0 <= i < s.len() ==> #[trigger] view_types(s)[i] == s[i]@,
    decreases s.len(),
{
    if s.len() > 0 {
        lemma_view_types(s.drop_last());
        assert(view_types(s) == view_types(s.drop_last()).push(s.last().view()));
        assert forall|i: int| 0 <= i < s.len() implies #[trigger] view_types(s)[i] == s[i]@ by {
            if i < s.len() - 1 {
                assert(s.drop_last()[i] == s[i]);
            }
        }
    }
}

impl View for Type {
    type V = TypeV;

    open spec fn view(&self) -> TypeV
        decreases self,
    {
        match self {
            Type::U8 => TypeV::U8,
            Type::I8 => TypeV::I8,
            Type::U16 => TypeV::U16,
            Type::I16 => TypeV::I16,
            Type::U32 => TypeV::U32,
            Type::I32 => TypeV::I32,
            Type::U64 => TypeV::U64,
            Type::I64 => TypeV::I64,
            Type::F32 => TypeV::F32,
            Type::F64 => TypeV::F64,
            Type::USize => TypeV::USize,
            Type::Bool => TypeV::Bool,
            Type::String => TypeV::String,
            Type::Empty => TypeV::Empty,
            Type::Unknown => TypeV::Unknown,
            Type::Array(inner) => TypeV::Array(Box::new((**inner).view())),
            Type::TypeVar(n) => TypeV::TypeVar(n@),
            Type::Class(id) => TypeV::Class(*id),
            Type::Function(ft) => TypeV::Function(Box::new((**ft).view())),
            Type::Qualified { inner, mutable, borrowed, moved } => TypeV::Qualified {
                inner: Box::new((**inner).view()),
                mutable: *mutable,
                borrowed: *borrowed,
                moved: *moved,
            },
            Type::Generic { name, args } => {
                proof {
                    assert(decreases_to!(self => args@));
                }
                TypeV::Generic { name: name@, args: view_types(args@) }
            },
        }
    }
}

impl View for FunctionType {
    type V = FunctionTypeV;

    open spec fn view(&self) -> FunctionTypeV
        decreases self,
    {
        proof {
            assert(decreases_to!(self => self.params@));
        }
        FunctionTypeV {
            params: view_types(self.params@),
            return_type: Box::new((*self.return_type).view()),
        }
    }
}

/// Copies a list of types.
pub fn copy_types(v: &Vec<Type>) -> (r: Vec<Type>)
    ensures
        view_types(r@) == view_types(v@),
    decreases v@, 0nat,
{
    let mut r: Vec<Type> = Vec::new();
    let mut i: usize = 0;
    while i < v.len()
        invariant
            i <= v.len(),
            view_types(r@) == view_types(v@.take(i as int)),
        decreases v.len() - i,
    {
        proof {
            assert(decreases_to!(v@ => v@[i as int]));
        }
        let t = v[i].copy();
        let ghost r0 = r@;
        r.push(t);
        proof {
            let vt = v@.take(i + 1);
            assert(vt.drop_last() =~= v@.take(i as int));
            assert(view_types(vt) == view_types(vt.drop_last()).push(vt.last().view()));
            assert(r@.drop_last() =~= r0);
            assert(view_types(r@) == view_types(r@.drop_last()).push(r@.last().view()));
        }
        i = i + 1;
    }
    assert(v@.take(v.len() as int) =~= v@);
    r
}

impl Type {
    /// A fresh copy of this type.
    pub fn copy(&self) -> (r: Type)
        ensures
            r@ == self@,
        decreases self, 0nat,
    {
        match self {
            Type::U8 => Type::U8,
            Type::I8 => Type::I8,
            Type::U16 => Type::U16,
            Type::I16 => Type::I16,
            Type::U32 => Type::U32,
            Type::I32 => Type::I32,
            Type::U64 => Type::U64,
            Type::I64 => Type::I64,
            Type::F32 => Type::F32,
            Type::F64 => Type::F64,
            Type::USize => Type::USize,
            Type::Bool => Type::Bool,
            Type::String => Type::String,
            Type::Empty => Type::Empty,
            Type::Unknown => Type::Unknown,
            Type::Array(inner) => Type::Array(Box::new(inner.copy())),
            Type::TypeVar(n) => Type::TypeVar(n.clone()),
            Type::Class(id) => Type::Class(*id),
            Type::Function(ft) => Type::Function(Box::new(ft.copy())),
            Type::Qualified { inner, mutable, borrowed, moved } => Type::Qualified {
                inner: Box::new(inner.copy()),
                mutable: *mutable,
                borrowed: *borrowed,
                moved: *moved,
            },
            Type::Generic { name, args } => Type::Generic { name: name.clone(), args: copy_types(args) },
        }
    }
}

/// Whether two lists of types are equal.
pub fn types_equal(a: &Vec<Type>, b: &Vec<Type>) -> (r: bool)
    ensures
        r == (view_types(a@) == view_types(b@)),
    decreases a@, 0nat,
{
    proof {
        lemma_view_types(a@);
        lemma_view_types(b@);
    }
    if a.len() != b.len() {
        return false;
    }
    let mut i: usize = 0;
    while i < a.len()
        invariant
            i <= a.len(),
            a.len() == b.len(),
            view_types(a@).len() == a@.len(),
            view_types(b@).len() == b@.len(),
            forall|j: int| 0 <= j < a@.len() ==> #[trigger] view_types(a@)[j] == a@[j]@,
            forall|j: int| 0 <= j < b@.len() ==> #[trigger] view_types(b@)[j] == b@[j]@,
            forall|j: int| 0 <= j < i ==> a@[j]@ == b@[j]@,
        decreases a.len() - i,
    {
        proof {
            assert(decreases_to!(a@ => a@[i as int]));
        }
        if !a[i].equals(&b[i]) {
            assert(view_types(a@)[i as int] != view_types(b@)[i as int]);
            return false;
        }
        i = i + 1;
    }
    assert(view_types(a@) =~= view_types(b@));
    true
}

impl Type {
    /// Structural equality of types.
    pub fn equals(&self, other: &Type) -> (r: bool)
        ensures
            r == (self@ == other@),
        decreases self, 0nat,
    {
        match (self, other) {
            (Type::U8, Type::U8) => true,
            (Type::I8, Type::I8) => true,
            (Type::U16, Type::U16) => true,
            (Type::I16, Type::I16) => true,
            (Type::U32, Type::U32) => true,
            (Type::I32, Type::I32) => true,
            (Type::U64, Type::U64) => true,
            (Type::I64, Type::I64) => true,
            (Type::F32, Type::F32) => true,
            (Type::F64, Type::F64) => true,
            (Type::USize, Type::USize) => true,
            (Type::Bool, Type::Bool) => true,
            (Type::String, Type::String) => true,
            (Type::Empty, Type::Empty) => true,
            (Type::Unknown, Type::Unknown) => true,
            (Type::Array(a), Type::Array(b)) => a.equals(b),
            (Type::TypeVar(a), Type::TypeVar(b)) => *a == *b,
            (Type::Class(a), Type::Class(b)) => a.0 == b.0,
            (Type::Function(a), Type::Function(b)) => a.equals(b),
            (
                Type::Qualified { inner: i1, mutable: m1, borrowed: b1, moved: v1 },
                Type::Qualified { inner: i2, mutable: m2, borrowed: b2, moved: v2 },
            ) => *m1 == *m2 && *b1 == *b2 && *v1 == *v2 && i1.equals(i2),
            (Type::Generic { name: n1, args: a1 }, Type::Generic { name: n2, args: a2 }) => {
                *n1 == *n2 && types_equal(a1, a2)
            },
            _ => false,
        }
    }

    /// Integer types.
    pub open spec fn spec_is_numeric(t: TypeV) -> bool {
        match t {
            TypeV::U8 | TypeV::I8 | TypeV::U16 | TypeV::I16 | TypeV::U32 | TypeV::I32 | TypeV::U64
            | TypeV::I64 | TypeV::USize => true,
            _ => false,
        }
    }

    pub open spec fn spec_inner(t: TypeV) -> TypeV {
        match t {
            TypeV::Qualified { inner, .. } => *inner,
            other => other,
        }
    }

    pub open spec fn spec_is_mutable(t: TypeV) -> bool {
        match t {
            TypeV::Qualified { mutable, .. } => mutable,
            _ => false,
        }
    }

    /// Whether this is an integer type.
    pub fn is_numeric(&self) -> (r: bool)
        ensures
            r == Self::spec_is_numeric(self@),
    {
        match self {
            Type::U8 | Type::I8 | Type::U16 | Type::I16 | Type::U32 | Type::I32 | Type::U64 | Type::I64
            | Type::USize => true,
            _ => false,
        }
    }

    /// Whether this is an integer or a floating-point type.
    pub fn is_numeric_or_float(&self) -> (r: bool)
        ensures
            r == (Self::spec_is_numeric(self@) || self@ is F32 || self@ is F64),
    {
        self.is_numeric() || matches!(self, Type::F32 | Type::F64)
    }

    /// The type under one level of qualification.
    pub fn inner(&self) -> (r: &Type)
        ensures
            r@ == Self::spec_inner(self@),
    {
        match self {
            Type::Qualified { inner, .. } => inner,
            other => other,
        }
    }

    /// Whether this is a qualified type marked mutable.
    pub fn is_mutable(&self) -> (r: bool)
        ensures
            r == Self::spec_is_mutable(self@),
    {
        match self {
            Type::Qualified { mutable, .. } => *mutable,
            _ => false,
        }
    }
}

impl FunctionType {
    /// Structural equality of function types.
    pub fn equals(&self, other: &FunctionType) -> (r: bool)
        ensures
            r == (self@ == other@),
        decreases self, 0nat,
    {
        types_equal(&self.params, &other.params) && self.return_type.equals(&other.return_type)
    }

    pub fn copy(&self) -> (r: FunctionType)
        ensures
            r@ == self@,
        decreases self, 0nat,
    {
        FunctionType { params: copy_types(&self.params), return_type: Box::new(self.return_type.copy()) }
    }
}

/// A class: its fields in declaration order, its methods and overloaded
/// operators, and the constant that describes it to the virtual machine.
#[derive(Debug)]
pub struct ClassType {
    pub name: String,
    /// (name, type, is public) of each field.
    pub fields: Vec<(String, Type, bool)>,
    pub field_index_map: NameMap<usize>,
    /// (method index, prototype index, type, is public) of each method.
    pub methods: NameMap<(usize, usize, FunctionType, bool)>,
    /// (operator, prototype index, type) of each overloaded operator.
    pub operators: Vec<(Operator, usize, FunctionType)>,
    pub class_proto_constant: Option<ConstantValue>,
}

/// Index of the first field of `fields` named `name`, or -1.
pub open spec fn first_field_index(fields: Seq<(String, Type, bool)>, name: Seq<char>) -> int
    decreases fields.len(),
{
    if fields.len() == 0 {
        -1
    } else if fields[0].0@ == name {
        0
    } else {
        let r = first_field_index(fields.drop_first(), name);
        if r < 0 {
            -1
        } else {
            r + 1
        }
    }
}

pub proof fn lemma_first_field_index(fields: Seq<(String, Type, bool)>, name: Seq<char>)
    ensures
        -1 <= first_field_index(fields, name) < fields.len(),
        first_field_index(fields, name) >= 0 ==> fields[first_field_index(fields, name)].0@ == name,
        forall|j: int| 0 <= j < fields.len() && (first_field_index(fields, name) < 0 || j < first_field_index(fields, name))
            ==> (#[trigger] fields[j]).0@ != name,
    decreases fields.len(),
{
    if fields.len() > 0 && fields[0].0@ != name {
        lemma_first_field_index(fields.drop_first(), name);
        assert forall|j: int| 0 <= j < fields.len() && (first_field_index(fields, name) < 0 || j < first_field_index(fields, name))
            implies (#[trigger] fields[j]).0@ != name by {
            if j > 0 {
                assert(fields[j] == fields.drop_first()[j - 1]);
            }
        }
    }
}

/// Index of the first entry of `ops` for `op`, or -1.
pub open spec fn first_operator_index(ops: Seq<(Operator, usize, FunctionType)>, op: Operator) -> int
    decreases ops.len(),
{
    if ops.len() == 0 {
        -1
    } else if ops[0].0 == op {
        0
    } else {
        let r = first_operator_index(ops.drop_first(), op);
        if r < 0 {
            -1
        } else {
            r + 1
        }
    }
}

pub proof fn lemma_first_operator_index(ops: Seq<(Operator, usize, FunctionType)>, op: Operator)
    ensures
        -1 <= first_operator_index(ops, op) < ops.len(),
        first_operator_index(ops, op) >= 0 ==> ops[first_operator_index(ops, op)].0 == op,
        forall|j: int| 0 <= j < ops.len() && (first_operator_index(ops, op) < 0 || j < first_operator_index(ops, op))
            ==> (#[trigger] ops[j]).0 != op,
    decreases ops.len(),
{
    if ops.len() > 0 && ops[0].0 != op {
        lemma_first_operator_index(ops.drop_first(), op);
        assert forall|j: int| 0 <= j < ops.len() && (first_operator_index(ops, op) < 0 || j < first_operator_index(ops, op))
            implies (#[trigger] ops[j]).0 != op by {
            if j > 0 {
                assert(ops[j] == ops.drop_first()[j - 1]);
            }
        }
    }
}

impl ClassType {
    /// The first field named `name`, by position.
    pub fn find_field(&self, name: &String) -> (r: Option<usize>)
        ensures
            match r {
                Some(i) => i as int == first_field_index(self.fields@, name@),
                None => first_field_index(self.fields@, name@) == -1,
            },
    {
        let mut i: usize = 0;
        proof {
            lemma_first_field_index(self.fields@, name@);
        }
        while i < self.fields.len()
            invariant
                i <= self.fields@.len(),
                forall|j: int| 0 <= j < i ==> (#[trigger] self.fields@[j]).0@ != name@,
                -1 <= first_field_index(self.fields@, name@) < self.fields@.len(),
                first_field_index(self.fields@, name@) >= 0 ==> self.fields@[first_field_index(self.fields@, name@)].0@ == name@,
                forall|j: int| 0 <= j < self.fields@.len() && (first_field_index(self.fields@, name@) < 0 || j < first_field_index(self.fields@, name@))
                    ==> (#[trigger] self.fields@[j]).0@ != name@,
            decreases self.fields.len() - i,
        {
            if self.fields[i].0 == *name {
                return Some(i);
            }
            i = i + 1;
        }
        None
    }

    /// The entry of the first overload of `op`, by position.
    pub fn find_operator(&self, op: Operator) -> (r: Option<usize>)
        ensures
            match r {
                Some(i) => i as int == first_operator_index(self.operators@, op),
                None => first_operator_index(self.operators@, op) == -1,
            },
    {
        let mut i: usize = 0;
        proof {
            lemma_first_operator_index(self.operators@, op);
        }
        while i < self.operators.len()
            invariant
                i <= self.operators@.len(),
                forall|j: int| 0 <= j < i ==> (#[trigger] self.operators@[j]).0 != op,
                -1 <= first_operator_index(self.operators@, op) < self.operators@.len(),
                first_operator_index(self.operators@, op) >= 0 ==> self.operators@[first_operator_index(self.operators@, op)].0 == op,
                forall|j: int| 0 <= j < self.operators@.len() && (first_operator_index(self.operators@, op) < 0 || j < first_operator_index(self.operators@, op))
                    ==> (#[trigger] self.operators@[j]).0 != op,
            decreases self.operators.len() - i,
        {
            if self.operators[i].0 == op {
                return Some(i);
            }
            i = i + 1;
        }
        None
    }
}


pub open spec fn view_opt_type(o: Option<Type>) -> Option<TypeV> {
    match o {
        Some(t) => Some(t@),
        None => None,
    }
}

/// The character of decimal digit `d`.
pub open spec fn digit_char(d: nat) -> char {
    if d == 0 {
        '0'
    } else if d == 1 {
        '1'
    } else if d == 2 {
        '2'
    } else if d == 3 {
        '3'
    } else if d == 4 {
        '4'
    } else if d == 5 {
        '5'
    } else if d == 6 {
        '6'
    } else if d == 7 {
        '7'
    } else if d == 8 {
        '8'
    } else {
        '9'
    }
}

/// `n` written in decimal.
pub open spec fn spec_decimal(n: nat) -> Seq<char>
    decreases n,
{
    if n < 10 {
        seq![digit_char(n)]
    } else {
        spec_decimal(n / 10) + seq![digit_char(n % 10)]
    }
}

/// How a type is written in messages.
pub open spec fn spec_display(t: TypeV) -> Seq<char>
    decreases t,
{
    match t {
        TypeV::U8 => "u8"@,
        TypeV::I8 => "i8"@,
        TypeV::U16 => "u16"@,
        TypeV::I16 => "i16"@,
        TypeV::U32 => "u32"@,
        TypeV::I32 => "i32"@,
        TypeV::U64 => "u64"@,
        TypeV::I64 => "i64"@,
        TypeV::F32 => "f32"@,
        TypeV::F64 => "f64"@,
        TypeV::USize => "usize"@,
        TypeV::Bool => "bool"@,
        TypeV::String => "string"@,
        TypeV::Empty => "empty"@,
        TypeV::Unknown => "<inferred>"@,
        TypeV::Array(inner) => "["@ + spec_display(*inner) + "]"@,
        TypeV::TypeVar(n) => n,
        TypeV::Class(id) => "TypeId("@ + spec_decimal(id.0 as nat) + ")"@,
        TypeV::Function(ft) => {
            proof {
                assert(decreases_to!(t => ft.params));
            }
            "fn("@ + spec_display_list(ft.params) + ") -> "@ + spec_display(*ft.return_type)
        },
        TypeV::Qualified { inner, mutable, borrowed, moved } => (if mutable {
            "mut "@
        } else {
            ""@
        }) + (if borrowed {
            "&"@
        } else {
            ""@
        }) + (if moved {
            "move "@
        } else {
            ""@
        }) + spec_display(*inner),
        TypeV::Generic { name, args } => name + "<"@ + spec_display_list(args) + ">"@,
    }
}

/// Types written one after the other, separated by `", "`.
pub open spec fn spec_display_list(ts: Seq<TypeV>) -> Seq<char>
    decreases ts,
{
    if ts.len() == 0 {
        Seq::empty()
    } else if ts.len() == 1 {
        spec_display(ts[0])
    } else {
        spec_display_list(ts.drop_last()) + ", "@ + spec_display(ts.last())
    }
}

fn digit_text(d: usize) -> (s: &'static str)
    requires
        d < 10,
    ensures
        s@ == seq![digit_char(d as nat)],
{
    if d == 0 {
        proof { reveal_strlit("0"); }
        "0"
    } else if d == 1 {
        proof { reveal_strlit("1"); }
        "1"
    } else if d == 2 {
        proof { reveal_strlit("2"); }
        "2"
    } else if d == 3 {
        proof { reveal_strlit("3"); }
        "3"
    } else if d == 4 {
        proof { reveal_strlit("4"); }
        "4"
    } else if d == 5 {
        proof { reveal_strlit("5"); }
        "5"
    } else if d == 6 {
        proof { reveal_strlit("6"); }
        "6"
    } else if d == 7 {
        proof { reveal_strlit("7"); }
        "7"
    } else if d == 8 {
        proof { reveal_strlit("8"); }
        "8"
    } else {
        proof { reveal_strlit("9"); }
        "9"
    }
}

/// `n` written in decimal.
pub fn decimal_text(n: usize) -> (s: String)
    ensures
        s@ == spec_decimal(n as nat),
    decreases n,
{
    if n < 10 {
        String::from_str(digit_text(n))
    } else {
        let mut s = decimal_text(n / 10);
        s.append(digit_text(n % 10));
        s
    }
}

fn display_list(v: &Vec<Type>) -> (s: String)
    ensures
        s@ == spec_display_list(view_types(v@)),
    decreases v@, 0nat,
{
    let mut s = String::new();
    let mut i: usize = 0;
    proof {
        lemma_view_types(v@);
        assert(view_types(v@.take(0)) =~= Seq::<TypeV>::empty()) by {
            lemma_view_types(v@.take(0));
        }
    }
    while i < v.len()
        invariant
            i <= v.len(),
            s@ == spec_display_list(view_types(v@.take(i as int))),
        decreases v.len() - i,
    {
        proof {
            assert(decreases_to!(v@ => v@[i as int]));
        }
        let t = v[i].display_string();
        let ghost s0 = s@;
        if i > 0 {
            s.append(", ");
        }
        s.append(t.as_str());
        proof {
            let vt = v@.take(i + 1);
            assert(vt.drop_last() =~= v@.take(i as int));
            lemma_view_types(vt);
            lemma_view_types(v@.take(i as int));
            let x = view_types(vt);
            assert(x.drop_last() =~= view_types(v@.take(i as int))) by {
                assert(view_types(vt) == view_types(vt.drop_last()).push(vt.last().view()));
            }
            assert(x.last() == v@[i as int]@);
            if i == 0 {
                assert(x.len() == 1);
                assert(x[0] == x.last());
            }
        }
        i = i + 1;
    }
    assert(v@.take(v.len() as int) =~= v@);
    s
}

impl Type {
    /// How this type is written in messages.
    pub fn display_string(&self) -> (s: String)
        ensures
            s@ == spec_display(self@),
        decreases self, 0nat,
    {
        match self {
            Type::U8 => String::from_str("u8"),
            Type::I8 => String::from_str("i8"),
            Type::U16 => String::from_str("u16"),
            Type::I16 => String::from_str("i16"),
            Type::U32 => String::from_str("u32"),
            Type::I32 => String::from_str("i32"),
            Type::U64 => String::from_str("u64"),
            Type::I64 => String::from_str("i64"),
            Type::F32 => String::from_str("f32"),
            Type::F64 => String::from_str("f64"),
            Type::USize => String::from_str("usize"),
            Type::Bool => String::from_str("bool"),
            Type::String => String::from_str("string"),
            Type::Empty => String::from_str("empty"),
            Type::Unknown => String::from_str("<inferred>"),
            Type::Array(inner) => {
                let mut s = String::from_str("[");
                let t = inner.display_string();
                s.append(t.as_str());
                s.append("]");
                assert(s@ == spec_display(self@));
                s
            },
            Type::TypeVar(n) => {
                let r = n.clone();
                assert(r@ == spec_display(self@));
                r
            },
            Type::Class(id) => {
                let mut s = String::from_str("TypeId(");
                let d = decimal_text(id.0);
                s.append(d.as_str());
                s.append(")");
                assert(s@ == spec_display(self@));
                s
            },
            Type::Function(ft) => {
                let mut s = String::from_str("fn(");
                let ps = display_list(&ft.params);
                s.append(ps.as_str());
                s.append(") -> ");
                let r = ft.return_type.display_string();
                s.append(r.as_str());
                assert(ft@.params == view_types(ft.params@));
                assert(*ft@.return_type == (*ft.return_type)@);
                assert(self@ == TypeV::Function(Box::new(ft@)));
                assert(s@ == spec_display(self@));
                s
            },
            Type::Qualified { inner, mutable, borrowed, moved } => {
                proof {
                    reveal_strlit("");
                    assert(""@ =~= Seq::<char>::empty());
                }
                let mut s = String::new();
                if *mutable {
                    s.append("mut ");
                }
                if *borrowed {
                    s.append("&");
                }
                if *moved {
                    s.append("move ");
                }
                let t = inner.display_string();
                s.append(t.as_str());
                assert(s@ == spec_display(self@));
                s
            },
            Type::Generic { name, args } => {
                let mut s = name.clone();
                s.append("<");
                let a = display_list(args);
                s.append(a.as_str());
                s.append(">");
                assert(s@ == spec_display(self@));
                s
            },
        }
    }
}

/// All class types of a compilation; a `TypeId` is an index here.
pub struct TypeArena {
    pub classes: Vec<ClassType>,
}

impl TypeArena {
    pub fn new() -> (a: Self)
        ensures
            a.classes@.len() == 0,
    {
        TypeArena { classes: Vec::new() }
    }

    /// Adds a class and gives its id.
    pub fn alloc_class(&mut self, c: ClassType) -> (id: TypeId)
        ensures
            id.0 == old(self).classes@.len(),
            final(self).classes@ == old(self).classes@.push(c),
    {
        let id = TypeId(self.classes.len());
        self.classes.push(c);
        id
    }

    pub fn get_class(&self, id: TypeId) -> (c: &ClassType)
        requires
            id.0 < self.classes@.len(),
        ensures
            *c == self.classes@[id.0 as int],
    {
        &self.classes[id.0]
    }

    pub fn get_class_mut(&mut self, id: TypeId) -> (c: &mut ClassType)
        requires
            id.0 < old(self).classes@.len(),
        ensures
            *c == old(self).classes@[id.0 as int],
            final(self).classes@ == old(self).classes@.update(id.0 as int, *final(c)),
    {
        &mut self.classes[id.0]
    }
}

} // verus!
