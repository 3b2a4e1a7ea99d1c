//! Plugin binaries: the container format, its validating loader, and the
//! compiled module the loader produces.
//!
//! A plugin arrives as an opaque byte buffer. The loader validates the
//! container structurally, extracts the declared world (imports required,
//! exports offered, one code body per export), cross-checks every required
//! import against the declarations the host supports, and prepares the code
//! for repeated instantiation. The loader never executes plugin code.
//!
//! Container layout, all multi-byte integers little-endian:
//! magic `5A 50 4C 47`, a format version byte, an import count followed by
//! that many declarations, an export count followed by that many
//! declarations each with a two-byte code length and its code bytes.
//! A declaration is a nonempty length-prefixed name, a parameter count and
//! one type byte per parameter, and a return type byte (zero for void).

use vstd::prelude::*;

use crate::iface::DeclModel;
use crate::iface::FuncDecl;
use crate::iface::Interface;
use crate::iface::InterfaceModel;
use crate::iface::ValType;
use crate::iface::decl_eq;
use crate::iface::decl_matches;
use crate::iface::decls_subset;
use crate::iface::has_decl;

verus! {

/// Why a plugin binary was rejected at load time.
#[derive(Clone, Copy, Debug, PartialEq, Eq, Structural)]
pub enum LoadError {
    /// The container is structurally invalid.
    Malformed,
    /// The container uses a version, type or operation this host does not
    /// support.
    UnsupportedFeature,
    /// The module requires an import the host does not provide with that
    /// exact signature.
    InterfaceMismatch,
}

/// One sandbox instruction of a compiled export body.
///
/// The machine is a small value stack over an isolated byte memory.
/// `StoreByte` pops a value and then an address, both `I64`; `LoadByte`
/// pops an address and pushes the byte read. `CallImport` names a declared
/// import by position. `Jump` names an instruction by position.
pub enum Instr {
    PushI32(i32),
    PushI64(i64),
    PushBool(bool),
    PushStr(Vec<u8>),
    PushBytes(Vec<u8>),
    PushParam(u8),
    Return,
    Abort,
    StoreByte,
    LoadByte,
    CallImport(u8),
    Jump(u16),
}

/// Mathematical model of one instruction.
pub enum InstrModel {
    PushI32(i32),
    PushI64(i64),
    PushBool(bool),
    PushStr(Seq<u8>),
    PushBytes(Seq<u8>),
    PushParam(u8),
    Return,
    Abort,
    StoreByte,
    LoadByte,
    CallImport(u8),
    Jump(u16),
}

impl View for Instr {
    type V = InstrModel;

    open spec fn view(&self) -> InstrModel {
        match self {
            Instr::PushI32(x) => InstrModel::PushI32(*x),
            Instr::PushI64(x) => InstrModel::PushI64(*x),
            Instr::PushBool(x) => InstrModel::PushBool(*x),
            Instr::PushStr(s) => InstrModel::PushStr(s@),
            Instr::PushBytes(s) => InstrModel::PushBytes(s@),
            Instr::PushParam(x) => InstrModel::PushParam(*x),
            Instr::Return => InstrModel::Return,
            Instr::Abort => InstrModel::Abort,
            Instr::StoreByte => InstrModel::StoreByte,
            Instr::LoadByte => InstrModel::LoadByte,
            Instr::CallImport(x) => InstrModel::CallImport(*x),
            Instr::Jump(x) => InstrModel::Jump(*x),
        }
    }
}

/// The model of a vector of instructions.
pub open spec fn instrs_view(c: Vec<Instr>) -> Seq<InstrModel> {
    c@.map_values(|x: Instr| x@)
}

/// The model of a vector of declarations.
pub open spec fn decls_view(ds: Vec<FuncDecl>) -> Seq<DeclModel> {
    ds@.map_values(|d: FuncDecl| d@)
}

/// The model of a vector of code bodies.
pub open spec fn code_list_view(cs: Vec<Vec<Instr>>) -> Seq<Seq<InstrModel>> {
    cs@.map_values(|c: Vec<Instr>| instrs_view(c))
}

/// An immutable, validated, compiled plugin: its declared world, one code
/// body per export, the import binding resolved against the host's
/// declarations at validation time, and the digest of the binary it was
/// loaded from, which identifies the module.
pub struct PluginModule {
    pub interface: Interface,
    pub code: Vec<Vec<Instr>>,
    pub binding: Vec<usize>,
    pub digest: u64,
}

/// Mathematical model of a compiled plugin.
pub struct ModuleModel {
    pub interface: InterfaceModel,
    pub code: Seq<Seq<InstrModel>>,
    pub binding: Seq<int>,
    pub digest: u64,
}

impl View for PluginModule {
    type V = ModuleModel;

    open spec fn view(&self) -> ModuleModel {
        ModuleModel {
            interface: self.interface@,
            code: code_list_view(self.code),
            binding: self.binding@.map_values(|x: usize| x as int),
            digest: self.digest,
        }
    }
}

/// Whether `k` is the position of the first declaration of `offered` that
/// matches `d` exactly.
pub open spec fn is_first_match(offered: Seq<DeclModel>, d: DeclModel, k: int) -> bool {
    &&& 0 <= k < offered.len()
    &&& decl_matches(d, offered[k])
    &&& forall|j: int| 0 <= j < k ==> !decl_matches(d, #[trigger] offered[j])
}

/// Whether a module's import binding is correctly resolved against the
/// host's declarations: one entry per required import, each the first
/// host declaration matching it.
pub open spec fn module_binds(m: ModuleModel, offered: Seq<DeclModel>) -> bool {
    &&& m.binding.len() == m.interface.imports.len()
    &&& forall|i: int|
        0 <= i < m.binding.len() ==> is_first_match(
            offered,
            m.interface.imports[i],
            #[trigger] m.binding[i],
        )
}

/// A structurally well-formed module: one code body per export.
pub open spec fn module_wf(m: ModuleModel) -> bool {
    m.code.len() == m.interface.exports.len()
}

// ------------------------------------------------------------------
// Primitive readers.
// ------------------------------------------------------------------

/// The little-endian value of the two bytes at `i`.
pub open spec fn spec_u16_at(b: Seq<u8>, i: int) -> int {
    b[i] + 0x100 * b[i + 1]
}

/// The little-endian value of the four bytes at `i`.
pub open spec fn spec_u32_at(b: Seq<u8>, i: int) -> int {
    b[i] + 0x100 * b[i + 1] + 0x10000 * b[i + 2] + 0x1000000 * b[i + 3]
}

/// The little-endian value of the eight bytes at `i`.
pub open spec fn spec_u64_at(b: Seq<u8>, i: int) -> int {
    b[i] + 0x100 * b[i + 1] + 0x10000 * b[i + 2] + 0x1000000 * b[i + 3] + 0x100000000 * b[i + 4]
        + 0x10000000000 * b[i + 5] + 0x1000000000000 * b[i + 6] + 0x100000000000000 * b[i + 7]
}

/// The two's-complement reading of an unsigned 32-bit value.
pub open spec fn spec_i32_of(n: int) -> int {
    if n < 0x80000000 {
        n
    } else {
        n - 0x100000000
    }
}

/// The two's-complement reading of an unsigned 64-bit value.
pub open spec fn spec_i64_of(n: int) -> int {
    if n < 0x8000000000000000 {
        n
    } else {
        n - 0x10000000000000000
    }
}

fn read_u16(b: &Vec<u8>, i: usize) -> (r: u16)
    requires
        i + 2 <= b@.len(),
    ensures
        r as int == spec_u16_at(b@, i as int),
{
    let blen: usize = b.len();
    assert(i + 2 <= blen);
    b[i] as u16 + (b[i + 1] as u16) * 0x100
}

fn read_u32(b: &Vec<u8>, i: usize) -> (r: u32)
    requires
        i + 4 <= b@.len(),
    ensures
        r as int == spec_u32_at(b@, i as int),
{
    let blen: usize = b.len();
    assert(i + 4 <= blen);
    b[i] as u32 + (b[i + 1] as u32) * 0x100 + (b[i + 2] as u32) * 0x10000 + (b[i + 3] as u32)
        * 0x1000000
}

fn read_u64(b: &Vec<u8>, i: usize) -> (r: u64)
    requires
        i + 8 <= b@.len(),
    ensures
        r as int == spec_u64_at(b@, i as int),
{
    let blen: usize = b.len();
    assert(i + 8 <= blen);
    b[i] as u64 + (b[i + 1] as u64) * 0x100 + (b[i + 2] as u64) * 0x10000 + (b[i + 3] as u64)
        * 0x1000000 + (b[i + 4] as u64) * 0x100000000 + (b[i + 5] as u64) * 0x10000000000 + (b[i
        + 6] as u64) * 0x1000000000000 + (b[i + 7] as u64) * 0x100000000000000
}

fn i32_from_u32(u: u32) -> (r: i32)
    ensures
        r as int == spec_i32_of(u as int),
{
    if u < 0x80000000 {
        u as i32
    } else {
        let d: u32 = u - 0x80000000;
        (d as i32) - 0x7FFFFFFF - 1
    }
}

fn i64_from_u64(u: u64) -> (r: i64)
    ensures
        r as int == spec_i64_of(u as int),
{
    if u < 0x8000000000000000 {
        u as i64
    } else {
        let d: u64 = u - 0x8000000000000000;
        (d as i64) - 0x7FFFFFFFFFFFFFFF - 1
    }
}

/// Copy `n` bytes of `b` starting at `start`.
fn copy_range(b: &Vec<u8>, start: usize, n: usize) -> (r: Vec<u8>)
    requires
        start + n <= b@.len(),
    ensures
        r@ == b@.subrange(start as int, start as int + n as int),
{
    let blen: usize = b.len();
    let mut r: Vec<u8> = Vec::new();
    let mut i: usize = 0;
    while i < n
        invariant
            i <= n,
            start + n <= blen,
            blen == b@.len(),
            r@ == b@.subrange(start as int, start as int + i as int),
        decreases n - i,
    {
        r.push(b[start + i]);
        assert(r@ =~= b@.subrange(start as int, start as int + (i + 1) as int));
        i = i + 1;
    }
    r
}

// ------------------------------------------------------------------
// The declared meaning of the container bytes.
// ------------------------------------------------------------------

/// Outcome of reading one piece of the container: the piece and the
/// position after it, or the reason the container is rejected.
pub enum ParseResult<T> {
    Parsed(T, int),
    Malformed,
    Unsupported,
}

/// The value type a type byte declares.
pub open spec fn spec_type_of_byte(x: u8) -> Option<ValType> {
    if x == 1 {
        Some(ValType::I32)
    } else if x == 2 {
        Some(ValType::I64)
    } else if x == 3 {
        Some(ValType::Bool)
    } else if x == 4 {
        Some(ValType::Str)
    } else if x == 5 {
        Some(ValType::Bytes)
    } else if x == 6 {
        Some(ValType::Handle)
    } else {
        None
    }
}

/// `n` type bytes read from position `i`.
pub open spec fn spec_parse_types(b: Seq<u8>, i: int, n: nat) -> ParseResult<Seq<ValType>>
    decreases n,
{
    if n == 0 {
        ParseResult::Parsed(Seq::empty(), i)
    } else if !(0 <= i < b.len()) {
        ParseResult::Malformed
    } else {
        match spec_type_of_byte(b[i]) {
            None => ParseResult::Unsupported,
            Some(t) => match spec_parse_types(b, i + 1, (n - 1) as nat) {
                ParseResult::Parsed(ts, j) => ParseResult::Parsed(seq![t].add(ts), j),
                ParseResult::Malformed => ParseResult::Malformed,
                ParseResult::Unsupported => ParseResult::Unsupported,
            },
        }
    }
}

/// One declaration read from position `i`: name length, name bytes,
/// parameter count, parameter type bytes, return type byte.
pub open spec fn spec_parse_decl(b: Seq<u8>, i: int) -> ParseResult<DeclModel> {
    if !(0 <= i < b.len()) {
        ParseResult::Malformed
    } else {
        let nl = b[i] as int;
        if nl == 0 || i + 1 + nl > b.len() {
            ParseResult::Malformed
        } else {
            let name = b.subrange(i + 1, i + 1 + nl);
            let j = i + 1 + nl;
            if j >= b.len() {
                ParseResult::Malformed
            } else {
                match spec_parse_types(b, j + 1, b[j] as nat) {
                    ParseResult::Parsed(ts, k) => {
                        if !(0 <= k < b.len()) {
                            ParseResult::Malformed
                        } else if b[k] == 0 {
                            ParseResult::Parsed(DeclModel { name, params: ts, ret: None }, k + 1)
                        } else {
                            match spec_type_of_byte(b[k]) {
                                None => ParseResult::Unsupported,
                                Some(t) => ParseResult::Parsed(
                                    DeclModel { name, params: ts, ret: Some(t) },
                                    k + 1,
                                ),
                            }
                        }
                    },
                    ParseResult::Malformed => ParseResult::Malformed,
                    ParseResult::Unsupported => ParseResult::Unsupported,
                }
            }
        }
    }
}

/// `n` declarations read from position `i`.
pub open spec fn spec_parse_decls(b: Seq<u8>, i: int, n: nat) -> ParseResult<Seq<DeclModel>>
    decreases n,
{
    if n == 0 {
        ParseResult::Parsed(Seq::empty(), i)
    } else {
        match spec_parse_decl(b, i) {
            ParseResult::Parsed(d, j) => {
                if !(i < j) {
                    ParseResult::Malformed
                } else {
                    match spec_parse_decls(b, j, (n - 1) as nat) {
                        ParseResult::Parsed(ds, k) => ParseResult::Parsed(seq![d].add(ds), k),
                        ParseResult::Malformed => ParseResult::Malformed,
                        ParseResult::Unsupported => ParseResult::Unsupported,
                    }
                }
            },
            ParseResult::Malformed => ParseResult::Malformed,
            ParseResult::Unsupported => ParseResult::Unsupported,
        }
    }
}

/// One instruction read from position `i`.
pub open spec fn spec_parse_instr(b: Seq<u8>, i: int) -> ParseResult<InstrModel> {
    if !(0 <= i < b.len()) {
        ParseResult::Malformed
    } else {
        let op = b[i];
        if op == 1 {
            if i + 5 <= b.len() {
                ParseResult::Parsed(
                    InstrModel::PushI32(spec_i32_of(spec_u32_at(b, i + 1)) as i32),
                    i + 5,
                )
            } else {
                ParseResult::Malformed
            }
        } else if op == 2 {
            if i + 9 <= b.len() {
                ParseResult::Parsed(
                    InstrModel::PushI64(spec_i64_of(spec_u64_at(b, i + 1)) as i64),
                    i + 9,
                )
            } else {
                ParseResult::Malformed
            }
        } else if op == 3 {
            if i + 2 <= b.len() && (b[i + 1] == 0 || b[i + 1] == 1) {
                ParseResult::Parsed(InstrModel::PushBool(b[i + 1] == 1), i + 2)
            } else {
                ParseResult::Malformed
            }
        } else if op == 4 || op == 5 {
            if i + 3 > b.len() {
                ParseResult::Malformed
            } else {
                let l = spec_u16_at(b, i + 1);
                if i + 3 + l > b.len() {
                    ParseResult::Malformed
                } else {
                    let s = b.subrange(i + 3, i + 3 + l);
                    if op == 4 {
                        ParseResult::Parsed(InstrModel::PushStr(s), i + 3 + l)
                    } else {
                        ParseResult::Parsed(InstrModel::PushBytes(s), i + 3 + l)
                    }
                }
            }
        } else if op == 6 {
            if i + 2 <= b.len() {
                ParseResult::Parsed(InstrModel::PushParam(b[i + 1]), i + 2)
            } else {
                ParseResult::Malformed
            }
        } else if op == 7 {
            ParseResult::Parsed(InstrModel::Return, i + 1)
        } else if op == 8 {
            ParseResult::Parsed(InstrModel::Abort, i + 1)
        } else if op == 9 {
            ParseResult::Parsed(InstrModel::StoreByte, i + 1)
        } else if op == 10 {
            ParseResult::Parsed(InstrModel::LoadByte, i + 1)
        } else if op == 11 {
            if i + 2 <= b.len() {
                ParseResult::Parsed(InstrModel::CallImport(b[i + 1]), i + 2)
            } else {
                ParseResult::Malformed
            }
        } else if op == 12 {
            if i + 3 <= b.len() {
                ParseResult::Parsed(InstrModel::Jump(spec_u16_at(b, i + 1) as u16), i + 3)
            } else {
                ParseResult::Malformed
            }
        } else {
            ParseResult::Unsupported
        }
    }
}

/// The instructions filling positions `i` to exactly `end`.
pub open spec fn spec_parse_code(b: Seq<u8>, i: int, end: int) -> ParseResult<Seq<InstrModel>>
    decreases end - i,
{
    if i == end {
        ParseResult::Parsed(Seq::empty(), i)
    } else if i > end || end > b.len() {
        ParseResult::Malformed
    } else {
        match spec_parse_instr(b, i) {
            ParseResult::Parsed(ins, j) => {
                if i < j && j <= end {
                    match spec_parse_code(b, j, end) {
                        ParseResult::Parsed(rest, k) => ParseResult::Parsed(
                            seq![ins].add(rest),
                            k,
                        ),
                        ParseResult::Malformed => ParseResult::Malformed,
                        ParseResult::Unsupported => ParseResult::Unsupported,
                    }
                } else {
                    ParseResult::Malformed
                }
            },
            ParseResult::Malformed => ParseResult::Malformed,
            ParseResult::Unsupported => ParseResult::Unsupported,
        }
    }
}

/// `n` exports read from position `i`: a declaration, a two-byte code
/// length, and exactly that many code bytes.
pub open spec fn spec_parse_exports(b: Seq<u8>, i: int, n: nat) -> ParseResult<
    Seq<(DeclModel, Seq<InstrModel>)>,
>
    decreases n,
{
    if n == 0 {
        ParseResult::Parsed(Seq::empty(), i)
    } else {
        match spec_parse_decl(b, i) {
            ParseResult::Parsed(d, j) => {
                if !(i < j) || j + 2 > b.len() {
                    ParseResult::Malformed
                } else {
                    let cl = spec_u16_at(b, j);
                    if j + 2 + cl > b.len() {
                        ParseResult::Malformed
                    } else {
                        match spec_parse_code(b, j + 2, j + 2 + cl) {
                            ParseResult::Parsed(code, _k) => {
                                match spec_parse_exports(b, j + 2 + cl, (n - 1) as nat) {
                                    ParseResult::Parsed(es, m) => ParseResult::Parsed(
                                        seq![(d, code)].add(es),
                                        m,
                                    ),
                                    ParseResult::Malformed => ParseResult::Malformed,
                                    ParseResult::Unsupported => ParseResult::Unsupported,
                                }
                            },
                            ParseResult::Malformed => ParseResult::Malformed,
                            ParseResult::Unsupported => ParseResult::Unsupported,
                        }
                    }
                }
            },
            ParseResult::Malformed => ParseResult::Malformed,
            ParseResult::Unsupported => ParseResult::Unsupported,
        }
    }
}

/// The parsed content of a whole container.
pub struct ParsedParts {
    pub imports: Seq<DeclModel>,
    pub exports: Seq<DeclModel>,
    pub code: Seq<Seq<InstrModel>>,
}

/// The whole container read from its first byte to its last.
pub open spec fn spec_parse_module(b: Seq<u8>) -> ParseResult<ParsedParts> {
    if b.len() < 6 {
        ParseResult::Malformed
    } else if !(b[0] == 0x5A && b[1] == 0x50 && b[2] == 0x4C && b[3] == 0x47) {
        ParseResult::Malformed
    } else if b[4] != 1 {
        ParseResult::Unsupported
    } else {
        match spec_parse_decls(b, 6, b[5] as nat) {
            ParseResult::Parsed(imps, i) => {
                if !(0 <= i < b.len()) {
                    ParseResult::Malformed
                } else {
                    match spec_parse_exports(b, i + 1, b[i] as nat) {
                        ParseResult::Parsed(exps, j) => {
                            if j == b.len() {
                                ParseResult::Parsed(
                                    ParsedParts {
                                        imports: imps,
                                        exports: exps.map_values(
                                            |p: (DeclModel, Seq<InstrModel>)| p.0,
                                        ),
                                        code: exps.map_values(
                                            |p: (DeclModel, Seq<InstrModel>)| p.1,
                                        ),
                                    },
                                    j,
                                )
                            } else {
                                ParseResult::Malformed
                            }
                        },
                        ParseResult::Malformed => ParseResult::Malformed,
                        ParseResult::Unsupported => ParseResult::Unsupported,
                    }
                }
            },
            ParseResult::Malformed => ParseResult::Malformed,
            ParseResult::Unsupported => ParseResult::Unsupported,
        }
    }
}

/// What `load` must decide for a given binary and host world: the parsed
/// parts when the binary is valid and every required import is offered,
/// and the exact error otherwise.
pub open spec fn spec_load_outcome(b: Seq<u8>, offered: Seq<DeclModel>) -> Result<
    ParsedParts,
    LoadError,
> {
    match spec_parse_module(b) {
        ParseResult::Malformed => Err(LoadError::Malformed),
        ParseResult::Unsupported => Err(LoadError::UnsupportedFeature),
        ParseResult::Parsed(parts, _j) => {
            if decls_subset(parts.imports, offered) {
                Ok(parts)
            } else {
                Err(LoadError::InterfaceMismatch)
            }
        },
    }
}

// ------------------------------------------------------------------
// The loader.
// ------------------------------------------------------------------

/// A reading that went on from `acc`: its result is `acc` followed by
/// whatever the rest yields, and its rejections are the rest's.
pub open spec fn append_parsed<A>(acc: Seq<A>, s: ParseResult<Seq<A>>) -> ParseResult<Seq<A>> {
    match s {
        ParseResult::Parsed(ts, j) => ParseResult::Parsed(acc.add(ts), j),
        ParseResult::Malformed => ParseResult::Malformed,
        ParseResult::Unsupported => ParseResult::Unsupported,
    }
}

fn type_from_byte(x: u8) -> (r: Option<ValType>)
    ensures
        r == spec_type_of_byte(x),
{
    if x == 1 {
        Some(ValType::I32)
    } else if x == 2 {
        Some(ValType::I64)
    } else if x == 3 {
        Some(ValType::Bool)
    } else if x == 4 {
        Some(ValType::Str)
    } else if x == 5 {
        Some(ValType::Bytes)
    } else if x == 6 {
        Some(ValType::Handle)
    } else {
        None
    }
}

fn parse_types(b: &Vec<u8>, pos: usize, n: u8) -> (r: Result<(Vec<ValType>, usize), LoadError>)
    ensures
        match spec_parse_types(b@, pos as int, n as nat) {
            ParseResult::Parsed(ts, j) => r matches Ok(p) && p.0@ == ts && p.1 as int == j,
            ParseResult::Malformed => r matches Err(e) && e == LoadError::Malformed,
            ParseResult::Unsupported => r matches Err(e) && e == LoadError::UnsupportedFeature,
        },
{
    let blen: usize = b.len();
    let mut out: Vec<ValType> = Vec::new();
    let mut p: usize = pos;
    let mut k: u8 = 0;
    proof {
        match spec_parse_types(b@, pos as int, n as nat) {
            ParseResult::Parsed(ts, j) => {
                assert(Seq::<ValType>::empty().add(ts) =~= ts);
            },
            _ => {},
        }
    }
    while k < n
        invariant
            k <= n,
            blen == b@.len(),
            spec_parse_types(b@, pos as int, n as nat) == append_parsed(
                out@,
                spec_parse_types(b@, p as int, (n - k) as nat),
            ),
        decreases n - k,
    {
        if p >= blen {
            return Err(LoadError::Malformed);
        }
        let t_opt = type_from_byte(b[p]);
        match t_opt {
            None => {
                return Err(LoadError::UnsupportedFeature);
            },
            Some(t) => {
                proof {
                    let rest = spec_parse_types(b@, p as int + 1, (n - k - 1) as nat);
                    match rest {
                        ParseResult::Parsed(ts, j) => {
                            assert(out@.add(seq![t].add(ts)) =~= out@.push(t).add(ts));
                        },
                        _ => {},
                    }
                }
                out.push(t);
                p = p + 1;
                k = k + 1;
            },
        }
    }
    assert(out@.add(Seq::empty()) =~= out@);
    Ok((out, p))
}

fn parse_decl(b: &Vec<u8>, pos: usize) -> (r: Result<(FuncDecl, usize), LoadError>)
    ensures
        match spec_parse_decl(b@, pos as int) {
            ParseResult::Parsed(d, j) => r matches Ok(p) && p.0@ == d && p.1 as int == j,
            ParseResult::Malformed => r matches Err(e) && e == LoadError::Malformed,
            ParseResult::Unsupported => r matches Err(e) && e == LoadError::UnsupportedFeature,
        },
{
    let blen: usize = b.len();
    if pos >= blen {
        return Err(LoadError::Malformed);
    }
    let nl: usize = b[pos] as usize;
    if nl == 0 || blen - (pos + 1) < nl {
        return Err(LoadError::Malformed);
    }
    let name = copy_range(b, pos + 1, nl);
    let j: usize = pos + 1 + nl;
    if j >= blen {
        return Err(LoadError::Malformed);
    }
    match parse_types(b, j + 1, b[j]) {
        Err(e) => Err(e),
        Ok((ts, k)) => {
            if k >= blen {
                return Err(LoadError::Malformed);
            }
            let rb: u8 = b[k];
            if rb == 0 {
                Ok((FuncDecl { name, params: ts, ret: None }, k + 1))
            } else {
                match type_from_byte(rb) {
                    None => Err(LoadError::UnsupportedFeature),
                    Some(t) => Ok((FuncDecl { name, params: ts, ret: Some(t) }, k + 1)),
                }
            }
        },
    }
}

fn parse_decls(b: &Vec<u8>, pos: usize, n: u8) -> (r: Result<(Vec<FuncDecl>, usize), LoadError>)
    ensures
        match spec_parse_decls(b@, pos as int, n as nat) {
            ParseResult::Parsed(ds, j) => r matches Ok(p) && decls_view(p.0) == ds && p.1 as int
                == j,
            ParseResult::Malformed => r matches Err(e) && e == LoadError::Malformed,
            ParseResult::Unsupported => r matches Err(e) && e == LoadError::UnsupportedFeature,
        },
{
    let mut out: Vec<FuncDecl> = Vec::new();
    let mut p: usize = pos;
    let mut k: u8 = 0;
    proof {
        match spec_parse_decls(b@, pos as int, n as nat) {
            ParseResult::Parsed(ds, j) => {
                assert(Seq::<DeclModel>::empty().add(ds) =~= ds);
            },
            _ => {},
        }
        assert(decls_view(out) =~= Seq::<DeclModel>::empty());
    }
    while k < n
        invariant
            k <= n,
            spec_parse_decls(b@, pos as int, n as nat) == append_parsed(
                decls_view(out),
                spec_parse_decls(b@, p as int, (n - k) as nat),
            ),
        decreases n - k,
    {
        match parse_decl(b, p) {
            Err(e) => {
                return Err(e);
            },
            Ok((d, j)) => {
                if !(p < j) {
                    return Err(LoadError::Malformed);
                }
                proof {
                    let rest = spec_parse_decls(b@, j as int, (n - k - 1) as nat);
                    match rest {
                        ParseResult::Parsed(ds, m) => {
                            assert(decls_view(out).add(seq![d@].add(ds)) =~= decls_view(out).push(
                                d@,
                            ).add(ds));
                            assert(decls_view(out).push(d@) =~= out@.push(d).map_values(
                                |x: FuncDecl| x@,
                            ));
                        },
                        _ => {
                            assert(out@.push(d).map_values(|x: FuncDecl| x@) =~= decls_view(
                                out,
                            ).push(d@));
                        },
                    }
                }
                out.push(d);
                p = j;
                k = k + 1;
            },
        }
    }
    assert(decls_view(out).add(Seq::empty()) =~= decls_view(out));
    Ok((out, p))
}

fn parse_instr(b: &Vec<u8>, pos: usize) -> (r: Result<(Instr, usize), LoadError>)
    ensures
        match spec_parse_instr(b@, pos as int) {
            ParseResult::Parsed(ins, j) => r matches Ok(p) && p.0@ == ins && p.1 as int == j,
            ParseResult::Malformed => r matches Err(e) && e == LoadError::Malformed,
            ParseResult::Unsupported => r matches Err(e) && e == LoadError::UnsupportedFeature,
        },
{
    let blen: usize = b.len();
    if pos >= blen {
        return Err(LoadError::Malformed);
    }
    let op: u8 = b[pos];
    if op == 1 {
        if blen - pos >= 5 {
            let v = read_u32(b, pos + 1);
            Ok((Instr::PushI32(i32_from_u32(v)), pos + 5))
        } else {
            Err(LoadError::Malformed)
        }
    } else if op == 2 {
        if blen - pos >= 9 {
            let v = read_u64(b, pos + 1);
            Ok((Instr::PushI64(i64_from_u64(v)), pos + 9))
        } else {
            Err(LoadError::Malformed)
        }
    } else if op == 3 {
        if blen - pos >= 2 && (b[pos + 1] == 0 || b[pos + 1] == 1) {
            Ok((Instr::PushBool(b[pos + 1] == 1), pos + 2))
        } else {
            Err(LoadError::Malformed)
        }
    } else if op == 4 || op == 5 {
        if blen - pos < 3 {
            return Err(LoadError::Malformed);
        }
        let l: usize = read_u16(b, pos + 1) as usize;
        if blen - (pos + 3) < l {
            return Err(LoadError::Malformed);
        }
        let s = copy_range(b, pos + 3, l);
        if op == 4 {
            Ok((Instr::PushStr(s), pos + 3 + l))
        } else {
            Ok((Instr::PushBytes(s), pos + 3 + l))
        }
    } else if op == 6 {
        if blen - pos >= 2 {
            Ok((Instr::PushParam(b[pos + 1]), pos + 2))
        } else {
            Err(LoadError::Malformed)
        }
    } else if op == 7 {
        Ok((Instr::Return, pos + 1))
    } else if op == 8 {
        Ok((Instr::Abort, pos + 1))
    } else if op == 9 {
        Ok((Instr::StoreByte, pos + 1))
    } else if op == 10 {
        Ok((Instr::LoadByte, pos + 1))
    } else if op == 11 {
        if blen - pos >= 2 {
            Ok((Instr::CallImport(b[pos + 1]), pos + 2))
        } else {
            Err(LoadError::Malformed)
        }
    } else if op == 12 {
        if blen - pos >= 3 {
            Ok((Instr::Jump(read_u16(b, pos + 1)), pos + 3))
        } else {
            Err(LoadError::Malformed)
        }
    } else {
        Err(LoadError::UnsupportedFeature)
    }
}

fn parse_code(b: &Vec<u8>, start: usize, end: usize) -> (r: Result<(Vec<Instr>, usize), LoadError>)
    requires
        start <= end <= b@.len(),
    ensures
        match spec_parse_code(b@, start as int, end as int) {
            ParseResult::Parsed(cs, j) => r matches Ok(p) && instrs_view(p.0) == cs && p.1 as int
                == j,
            ParseResult::Malformed => r matches Err(e) && e == LoadError::Malformed,
            ParseResult::Unsupported => r matches Err(e) && e == LoadError::UnsupportedFeature,
        },
{
    let mut out: Vec<Instr> = Vec::new();
    let mut p: usize = start;
    proof {
        match spec_parse_code(b@, start as int, end as int) {
            ParseResult::Parsed(cs, j) => {
                assert(Seq::<InstrModel>::empty().add(cs) =~= cs);
            },
            _ => {},
        }
        assert(instrs_view(out) =~= Seq::<InstrModel>::empty());
    }
    while p < end
        invariant
            start <= p <= end <= b@.len(),
            spec_parse_code(b@, start as int, end as int) == append_parsed(
                instrs_view(out),
                spec_parse_code(b@, p as int, end as int),
            ),
        decreases end - p,
    {
        match parse_instr(b, p) {
            Err(e) => {
                return Err(e);
            },
            Ok((ins, j)) => {
                if !(p < j && j <= end) {
                    return Err(LoadError::Malformed);
                }
                proof {
                    let rest = spec_parse_code(b@, j as int, end as int);
                    assert(out@.push(ins).map_values(|x: Instr| x@) =~= instrs_view(out).push(
                        ins@,
                    ));
                    match rest {
                        ParseResult::Parsed(cs, m) => {
                            assert(instrs_view(out).add(seq![ins@].add(cs)) =~= instrs_view(
                                out,
                            ).push(ins@).add(cs));
                        },
                        _ => {},
                    }
                }
                out.push(ins);
                p = j;
            },
        }
    }
    assert(instrs_view(out).add(Seq::empty()) =~= instrs_view(out));
    Ok((out, p))
}

/// The model of parallel declaration and code sequences as export pairs.
pub open spec fn pairs_view(ds: Seq<FuncDecl>, cs: Seq<Vec<Instr>>) -> Seq<
    (DeclModel, Seq<InstrModel>),
>
    recommends
        ds.len() == cs.len(),
{
    Seq::new(ds.len(), |i: int| (ds[i]@, instrs_view(cs[i])))
}

fn parse_exports(b: &Vec<u8>, pos: usize, n: u8) -> (r: Result<
    (Vec<FuncDecl>, Vec<Vec<Instr>>, usize),
    LoadError,
>)
    ensures
        match spec_parse_exports(b@, pos as int, n as nat) {
            ParseResult::Parsed(es, j) => r matches Ok(p) && p.0@.len() == p.1@.len()
                && pairs_view(p.0@, p.1@) == es && p.2 as int == j,
            ParseResult::Malformed => r matches Err(e) && e == LoadError::Malformed,
            ParseResult::Unsupported => r matches Err(e) && e == LoadError::UnsupportedFeature,
        },
{
    let blen: usize = b.len();
    let mut decls: Vec<FuncDecl> = Vec::new();
    let mut codes: Vec<Vec<Instr>> = Vec::new();
    let mut p: usize = pos;
    let mut k: u8 = 0;
    proof {
        match spec_parse_exports(b@, pos as int, n as nat) {
            ParseResult::Parsed(es, j) => {
                assert(Seq::<(DeclModel, Seq<InstrModel>)>::empty().add(es) =~= es);
            },
            _ => {},
        }
        assert(pairs_view(decls@, codes@) =~= Seq::<(DeclModel, Seq<InstrModel>)>::empty());
    }
    while k < n
        invariant
            k <= n,
            blen == b@.len(),
            decls@.len() == codes@.len(),
            spec_parse_exports(b@, pos as int, n as nat) == append_parsed(
                pairs_view(decls@, codes@),
                spec_parse_exports(b@, p as int, (n - k) as nat),
            ),
        decreases n - k,
    {
        match parse_decl(b, p) {
            Err(e) => {
                return Err(e);
            },
            Ok((d, j)) => {
                if !(p < j) || blen - j < 2 {
                    return Err(LoadError::Malformed);
                }
                let cl: usize = read_u16(b, j) as usize;
                if blen - (j + 2) < cl {
                    return Err(LoadError::Malformed);
                }
                match parse_code(b, j + 2, j + 2 + cl) {
                    Err(e) => {
                        return Err(e);
                    },
                    Ok((code, _ce)) => {
                        proof {
                            let rest = spec_parse_exports(
                                b@,
                                j as int + 2 + cl,
                                (n - k - 1) as nat,
                            );
                            assert(pairs_view(decls@.push(d), codes@.push(code))
                                =~= pairs_view(decls@, codes@).push((d@, instrs_view(code))));
                            match rest {
                                ParseResult::Parsed(es, m) => {
                                    assert(pairs_view(decls@, codes@).add(
                                        seq![(d@, instrs_view(code))].add(es),
                                    ) =~= pairs_view(decls@, codes@).push(
                                        (d@, instrs_view(code)),
                                    ).add(es));
                                },
                                _ => {},
                            }
                        }
                        decls.push(d);
                        codes.push(code);
                        p = j + 2 + cl;
                        k = k + 1;
                    },
                }
            },
        }
    }
    assert(pairs_view(decls@, codes@).add(Seq::empty()) =~= pairs_view(decls@, codes@));
    Ok((decls, codes, p))
}

/// Find the position of the first declaration of `offered` matching `d`.
fn find_first(offered: &Vec<FuncDecl>, d: &FuncDecl) -> (r: Option<usize>)
    ensures
        match r {
            Some(k) => is_first_match(decls_view(*offered), d@, k as int),
            None => forall|q: int|
                0 <= q < decls_view(*offered).len() ==> !decl_matches(
                    d@,
                    #[trigger] decls_view(*offered)[q],
                ),
        },
{
    let mut jj: usize = 0;
    while jj < offered.len()
        invariant
            jj <= offered@.len(),
            forall|q: int|
                0 <= q < jj ==> !decl_matches(d@, #[trigger] decls_view(*offered)[q]),
        decreases offered@.len() - jj,
    {
        if decl_eq(d, &offered[jj]) {
            assert(decls_view(*offered)[jj as int] == offered@[jj as int]@);
            return Some(jj);
        }
        assert(decls_view(*offered)[jj as int] == offered@[jj as int]@);
        jj = jj + 1;
    }
    None
}

/// Validate and compile a plugin binary against the declarations the host
/// offers as imports.
///
/// The result is exactly what the container bytes declare: a structurally
/// invalid container is `Malformed`, an unknown version, type or operation
/// is `UnsupportedFeature`, and a valid container requiring an import the
/// host does not offer with the same signature is `InterfaceMismatch`.
/// On success the module carries the declared world, one code body per
/// export, the import binding resolved to the first matching host
/// declaration, and the digest of the binary. No plugin code runs.
pub fn load(bytes: &Vec<u8>, offered: &Vec<FuncDecl>) -> (r: Result<PluginModule, LoadError>)
    ensures
        match spec_load_outcome(bytes@, decls_view(*offered)) {
            Ok(parts) => r matches Ok(m) && m@.interface.imports == parts.imports
                && m@.interface.exports == parts.exports && m@.code == parts.code && m@.digest
                == spec_digest(bytes@) && module_binds(m@, decls_view(*offered)) && module_wf(m@),
            Err(e) => r matches Err(e2) && e2 == e,
        },
{
    let blen: usize = bytes.len();
    if blen < 6 {
        return Err(LoadError::Malformed);
    }
    if !(bytes[0] == 0x5A && bytes[1] == 0x50 && bytes[2] == 0x4C && bytes[3] == 0x47) {
        return Err(LoadError::Malformed);
    }
    if bytes[4] != 1 {
        return Err(LoadError::UnsupportedFeature);
    }
    match parse_decls(bytes, 6, bytes[5]) {
        Err(e) => Err(e),
        Ok((imports, i)) => {
            if i >= blen {
                return Err(LoadError::Malformed);
            }
            match parse_exports(bytes, i + 1, bytes[i]) {
                Err(e) => Err(e),
                Ok((edecls, codes, j)) => {
                    if j != blen {
                        return Err(LoadError::Malformed);
                    }
                    let ghost parts_exports = pairs_view(edecls@, codes@).map_values(
                        |q: (DeclModel, Seq<InstrModel>)| q.0,
                    );
                    let ghost parts_code = pairs_view(edecls@, codes@).map_values(
                        |q: (DeclModel, Seq<InstrModel>)| q.1,
                    );
                    proof {
                        assert(parts_exports =~= decls_view(edecls));
                        assert(parts_code =~= code_list_view(codes));
                    }
                    let mut binding: Vec<usize> = Vec::new();
                    let mut ii: usize = 0;
                    while ii < imports.len()
                        invariant
                            ii <= imports@.len(),
                            binding@.len() == ii,
                            spec_parse_module(bytes@) matches ParseResult::Parsed(pp, pj)
                                && pp.imports == decls_view(imports),
                            forall|t: int|
                                0 <= t < ii ==> is_first_match(
                                    decls_view(*offered),
                                    decls_view(imports)[t],
                                    #[trigger] binding@[t] as int,
                                ),
                        decreases imports@.len() - ii,
                    {
                        match find_first(offered, &imports[ii]) {
                            None => {
                                proof {
                                    assert(decls_view(imports)[ii as int] == imports@[ii as int]@);
                                    assert(!has_decl(decls_view(*offered), decls_view(imports)[ii as int]));
                                    assert(!decls_subset(decls_view(imports), decls_view(*offered)));
                                }
                                return Err(LoadError::InterfaceMismatch);
                            },
                            Some(hit) => {
                                proof {
                                    assert(decls_view(imports)[ii as int] == imports@[ii as int]@);
                                }
                                binding.push(hit);
                                ii = ii + 1;
                            },
                        }
                    }
                    proof {
                        assert forall|t: int| 0 <= t < decls_view(imports).len() implies has_decl(
                            decls_view(*offered),
                            #[trigger] decls_view(imports)[t],
                        ) by {
                            assert(is_first_match(
                                decls_view(*offered),
                                decls_view(imports)[t],
                                binding@[t] as int,
                            ));
                            assert((binding@[t] as int) < decls_view(*offered).len());
                            assert(decl_matches(
                                decls_view(imports)[t],
                                decls_view(*offered)[binding@[t] as int],
                            ));
                        }
                        assert(decls_subset(decls_view(imports), decls_view(*offered)));
                    }
                    let digest = digest_of(bytes);
                    let m = PluginModule {
                        interface: Interface { imports, exports: edecls },
                        code: codes,
                        binding,
                        digest,
                    };
                    Ok(m)
                },
            }
        },
    }
}

/// A structurally valid binary whose required imports the host offers is
/// accepted: loading decides success exactly by parse validity and the
/// import cross-check, so every such module loads.
pub proof fn lemma_valid_module_loads(b: Seq<u8>, offered: Seq<DeclModel>)
    requires
        spec_parse_module(b) matches ParseResult::Parsed(parts, j) && decls_subset(
            parts.imports,
            offered,
        ),
    ensures
        spec_load_outcome(b, offered) is Ok,
{
}

/// A module requiring an import the host does not offer with the same
/// signature is refused as an interface mismatch. The loader is purely
/// static, so no instantiation and no plugin code is ever attempted for
/// such a module.
pub proof fn lemma_unmet_import_rejected(b: Seq<u8>, offered: Seq<DeclModel>)
    requires
        spec_parse_module(b) matches ParseResult::Parsed(parts, j) && !decls_subset(
            parts.imports,
            offered,
        ),
    ensures
        spec_load_outcome(b, offered) == Err::<ParsedParts, LoadError>(
            LoadError::InterfaceMismatch,
        ),
{
}

/// The digest of a binary: a 64-bit fold over its bytes, used as the
/// module's identity.
pub open spec fn spec_digest(b: Seq<u8>) -> u64
    decreases b.len(),
{
    if b.len() == 0 {
        0xcbf29ce484222325u64
    } else {
        (spec_digest(b.drop_last()) ^ (b.last() as u64)).wrapping_mul(0x100000001b3u64)
    }
}

/// Compute the digest of a byte buffer.
pub fn digest_of(b: &Vec<u8>) -> (r: u64)
    ensures
        r == spec_digest(b@),
{
    let mut h: u64 = 0xcbf29ce484222325;
    let mut i: usize = 0;
    assert(b@.subrange(0, 0) =~= Seq::<u8>::empty());
    while i < b.len()
        invariant
            i <= b@.len(),
            h == spec_digest(b@.subrange(0, i as int)),
        decreases b@.len() - i,
    {
        h = (h ^ (b[i] as u64)).wrapping_mul(0x100000001b3);
        proof {
            let pre = b@.subrange(0, i + 1);
            assert(pre.drop_last() =~= b@.subrange(0, i as int));
            assert(pre.last() == b@[i as int]);
        }
        i = i + 1;
    }
    assert(b@.subrange(0, b@.len() as int) =~= b@);
    h
}

} // verus!
