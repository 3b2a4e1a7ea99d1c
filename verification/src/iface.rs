//! Capability interface definitions: the value types, runtime values and
//! function declarations out of which a plugin "world" is built.
//!
//! A world is the contract between a plugin and the host: the imports the
//! plugin requires (functions the host must supply) and the exports it
//! offers (functions the host may call). Every function has a fixed
//! signature over a small closed set of value types.

use vstd::prelude::*;

verus! {

/// The fixed set of value types a plugin interface may mention.
#[derive(Clone, Copy, Debug, PartialEq, Eq, Structural)]
pub enum ValType {
    I32,
    I64,
    Bool,
    Str,
    Bytes,
    Handle,
}

/// A runtime value crossing the sandbox boundary in either direction.
///
/// Text is carried as its UTF-8 bytes; a `Handle` is an opaque index into
/// the resource table of one execution context.
pub enum Value {
    I32(i32),
    I64(i64),
    Bool(bool),
    Str(Vec<u8>),
    Bytes(Vec<u8>),
    Handle(u64),
}

/// Mathematical model of a runtime value.
pub enum ValueModel {
    I32(i32),
    I64(i64),
    Bool(bool),
    Str(Seq<u8>),
    Bytes(Seq<u8>),
    Handle(u64),
}

impl View for Value {
    type V = ValueModel;

    open spec fn view(&self) -> ValueModel {
        match self {
            Value::I32(x) => ValueModel::I32(*x),
            Value::I64(x) => ValueModel::I64(*x),
            Value::Bool(x) => ValueModel::Bool(*x),
            Value::Str(s) => ValueModel::Str(s@),
            Value::Bytes(b) => ValueModel::Bytes(b@),
            Value::Handle(h) => ValueModel::Handle(*h),
        }
    }
}

/// The type of a value model.
pub open spec fn type_of(v: ValueModel) -> ValType {
    match v {
        ValueModel::I32(_) => ValType::I32,
        ValueModel::I64(_) => ValType::I64,
        ValueModel::Bool(_) => ValType::Bool,
        ValueModel::Str(_) => ValType::Str,
        ValueModel::Bytes(_) => ValType::Bytes,
        ValueModel::Handle(_) => ValType::Handle,
    }
}

impl Value {
    /// The type of this value.
    pub fn value_type(&self) -> (t: ValType)
        ensures
            t == type_of(self@),
    {
        match self {
            Value::I32(_) => ValType::I32,
            Value::I64(_) => ValType::I64,
            Value::Bool(_) => ValType::Bool,
            Value::Str(_) => ValType::Str,
            Value::Bytes(_) => ValType::Bytes,
            Value::Handle(_) => ValType::Handle,
        }
    }
}

impl Clone for Value {
    fn clone(&self) -> (r: Value)
        ensures
            r@ == self@,
    {
        match self {
            Value::I32(x) => Value::I32(*x),
            Value::I64(x) => Value::I64(*x),
            Value::Bool(x) => Value::Bool(*x),
            Value::Str(s) => Value::Str(clone_bytes(s)),
            Value::Bytes(b) => Value::Bytes(clone_bytes(b)),
            Value::Handle(h) => Value::Handle(*h),
        }
    }
}

/// Copy a byte vector.
pub fn clone_bytes(b: &Vec<u8>) -> (r: Vec<u8>)
    ensures
        r@ == b@,
{
    let mut r: Vec<u8> = Vec::new();
    let mut i: usize = 0;
    while i < b.len()
        invariant
            i <= b.len(),
            r@ == b@.subrange(0, i as int),
        decreases b.len() - i,
    {
        r.push(b[i]);
        i = i + 1;
    }
    assert(r@ == b@);
    r
}

/// Compare two byte vectors for equality.
pub fn bytes_eq(a: &Vec<u8>, b: &Vec<u8>) -> (r: bool)
    ensures
        r == (a@ == b@),
{
    if a.len() != b.len() {
        assert(a@ != b@) by {
            assert(a@.len() != b@.len());
        }
        return false;
    }
    let mut i: usize = 0;
    while i < a.len()
        invariant
            i <= a.len(),
            a@.len() == b@.len(),
            forall|j: int| 0 <= j < i ==> a@[j] == b@[j],
        decreases a.len() - i,
    {
        if a[i] != b[i] {
            return false;
        }
        i = i + 1;
    }
    assert(a@ =~= b@);
    true
}

/// One function declaration of a world: a name, the ordered parameter
/// types, and the return type (`None` for a void return).
pub struct FuncDecl {
    pub name: Vec<u8>,
    pub params: Vec<ValType>,
    pub ret: Option<ValType>,
}

/// Mathematical model of a function declaration.
pub struct DeclModel {
    pub name: Seq<u8>,
    pub params: Seq<ValType>,
    pub ret: Option<ValType>,
}

impl View for FuncDecl {
    type V = DeclModel;

    open spec fn view(&self) -> DeclModel {
        DeclModel { name: self.name@, params: self.params@, ret: self.ret }
    }
}

impl Clone for FuncDecl {
    fn clone(&self) -> (r: FuncDecl)
        ensures
            r@ == self@,
    {
        let r = FuncDecl {
            name: clone_bytes(&self.name),
            params: clone_types(&self.params),
            ret: self.ret,
        };
        assert(r@ =~= self@);
        r
    }
}

/// Copy a vector of value types.
pub fn clone_types(ts: &Vec<ValType>) -> (r: Vec<ValType>)
    ensures
        r@ == ts@,
{
    let mut r: Vec<ValType> = Vec::new();
    let mut i: usize = 0;
    while i < ts.len()
        invariant
            i <= ts.len(),
            r@ == ts@.subrange(0, i as int),
        decreases ts.len() - i,
    {
        r.push(ts[i]);
        i = i + 1;
    }
    assert(r@ == ts@);
    r
}

/// Compare two return types for equality.
pub fn ret_eq(a: &Option<ValType>, b: &Option<ValType>) -> (r: bool)
    ensures
        r == (a == b),
{
    match (a, b) {
        (Option::None, Option::None) => true,
        (Option::Some(x), Option::Some(y)) => *x == *y,
        _ => false,
    }
}

/// Compare two parameter lists for equality.
pub fn types_eq(a: &Vec<ValType>, b: &Vec<ValType>) -> (r: bool)
    ensures
        r == (a@ == b@),
{
    if a.len() != b.len() {
        assert(a@ != b@) by {
            assert(a@.len() != b@.len());
        }
        return false;
    }
    let mut i: usize = 0;
    while i < a.len()
        invariant
            i <= a.len(),
            a@.len() == b@.len(),
            forall|j: int| 0 <= j < i ==> a@[j] == b@[j],
        decreases a.len() - i,
    {
        if a[i] != b[i] {
            return false;
        }
        i = i + 1;
    }
    assert(a@ =~= b@);
    true
}

/// Whether two declarations agree exactly: same name, same signature.
pub open spec fn decl_matches(a: DeclModel, b: DeclModel) -> bool {
    a.name == b.name && a.params == b.params && a.ret == b.ret
}

/// Compare two declarations for an exact match.
pub fn decl_eq(a: &FuncDecl, b: &FuncDecl) -> (r: bool)
    ensures
        r == decl_matches(a@, b@),
{
    bytes_eq(&a.name, &b.name) && types_eq(&a.params, &b.params) && ret_eq(&a.ret, &b.ret)
}

/// A declared world: the imports a plugin requires and the exports it
/// offers.
pub struct Interface {
    pub imports: Vec<FuncDecl>,
    pub exports: Vec<FuncDecl>,
}

/// Mathematical model of a world.
pub struct InterfaceModel {
    pub imports: Seq<DeclModel>,
    pub exports: Seq<DeclModel>,
}

impl View for Interface {
    type V = InterfaceModel;

    open spec fn view(&self) -> InterfaceModel {
        InterfaceModel {
            imports: self.imports@.map_values(|d: FuncDecl| d@),
            exports: self.exports@.map_values(|d: FuncDecl| d@),
        }
    }
}

/// Whether some declaration of `offered` matches `d` exactly.
pub open spec fn has_decl(offered: Seq<DeclModel>, d: DeclModel) -> bool {
    exists|j: int| 0 <= j < offered.len() && decl_matches(d, #[trigger] offered[j])
}

/// Whether every declaration of `required` appears, with an identical
/// signature, among `offered`.
pub open spec fn decls_subset(required: Seq<DeclModel>, offered: Seq<DeclModel>) -> bool {
    forall|i: int| 0 <= i < required.len() ==> has_decl(offered, #[trigger] required[i])
}

/// Whether a sequence of argument models matches a parameter list.
pub open spec fn args_match(args: Seq<ValueModel>, params: Seq<ValType>) -> bool {
    args.len() == params.len() && forall|i: int|
        0 <= i < args.len() ==> type_of(#[trigger] args[i]) == params[i]
}

} // verus!
