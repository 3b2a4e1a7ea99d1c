//! The capability provider: the host-side implementations of every
//! function a plugin may import.
//!
//! One provider serves the whole host process. It exposes exactly the
//! declarations of [`host_world`] and nothing else: a plugin can learn the
//! host's logical name, append to a bounded host log, draw from a shared
//! counter, and have an opaque resource handle granted in its own
//! context's table. No capability leaks host memory or unbounded host
//! state to the plugin.

use vstd::prelude::*;

use crate::iface::DeclModel;
use crate::iface::FuncDecl;
use crate::iface::ValType;
use crate::iface::Value;
use crate::iface::ValueModel;
use crate::iface::clone_bytes;

verus! {

/// The name of the capability returning the host's logical name: `host-name`.
pub open spec fn name_host_name() -> Seq<u8> {
    seq![104u8, 111u8, 115u8, 116u8, 45u8, 110u8, 97u8, 109u8, 101u8]
}

/// The name of the capability appending to the host log: `log`.
pub open spec fn name_log() -> Seq<u8> {
    seq![108u8, 111u8, 103u8]
}

/// The name of the capability drawing the shared counter: `counter-next`.
pub open spec fn name_counter_next() -> Seq<u8> {
    seq![
        99u8,
        111u8,
        117u8,
        110u8,
        116u8,
        101u8,
        114u8,
        45u8,
        110u8,
        101u8,
        120u8,
        116u8,
    ]
}

/// The name of the capability granting a resource handle: `grant-handle`.
pub open spec fn name_grant_handle() -> Seq<u8> {
    seq![
        103u8,
        114u8,
        97u8,
        110u8,
        116u8,
        45u8,
        104u8,
        97u8,
        110u8,
        100u8,
        108u8,
        101u8,
    ]
}

/// The world of imports this host offers, in capability order:
/// `host-name() -> str`, `log(str)`, `counter-next() -> i64`,
/// `grant-handle() -> handle`.
pub open spec fn host_world() -> Seq<DeclModel> {
    seq![
        DeclModel { name: name_host_name(), params: Seq::empty(), ret: Some(ValType::Str) },
        DeclModel { name: name_log(), params: seq![ValType::Str], ret: None },
        DeclModel { name: name_counter_next(), params: Seq::empty(), ret: Some(ValType::I64) },
        DeclModel { name: name_grant_handle(), params: Seq::empty(), ret: Some(ValType::Handle) },
    ]
}

/// Build the host's import declarations, in capability order.
pub fn host_capabilities() -> (r: Vec<FuncDecl>)
    ensures
        crate::module::decls_view(r) == host_world(),
{
    let mut r: Vec<FuncDecl> = Vec::new();
    let n0: Vec<u8> = vec![104u8, 111u8, 115u8, 116u8, 45u8, 110u8, 97u8, 109u8, 101u8];
    assert(n0@ =~= name_host_name());
    r.push(FuncDecl { name: n0, params: Vec::new(), ret: Some(ValType::Str) });
    let n1: Vec<u8> = vec![108u8, 111u8, 103u8];
    assert(n1@ =~= name_log());
    let mut p1: Vec<ValType> = Vec::new();
    p1.push(ValType::Str);
    assert(p1@ =~= seq![ValType::Str]);
    r.push(FuncDecl { name: n1, params: p1, ret: None });
    let n2: Vec<u8> = vec![
        99u8,
        111u8,
        117u8,
        110u8,
        116u8,
        101u8,
        114u8,
        45u8,
        110u8,
        101u8,
        120u8,
        116u8,
    ];
    assert(n2@ =~= name_counter_next());
    r.push(FuncDecl { name: n2, params: Vec::new(), ret: Some(ValType::I64) });
    let n3: Vec<u8> = vec![
        103u8,
        114u8,
        97u8,
        110u8,
        116u8,
        45u8,
        104u8,
        97u8,
        110u8,
        100u8,
        108u8,
        101u8,
    ];
    assert(n3@ =~= name_grant_handle());
    r.push(FuncDecl { name: n3, params: Vec::new(), ret: Some(ValType::Handle) });
    assert(crate::module::decls_view(r) =~= host_world());
    r
}

/// The process-wide capability provider: the host's logical name handed
/// to plugins, the bounded log they may append to, its capacity, and the
/// shared counter.
pub struct CapabilityProvider {
    pub host_name: Vec<u8>,
    pub log: Vec<Vec<u8>>,
    pub log_cap: usize,
    pub counter: i64,
}

/// Mathematical model of the capability provider.
pub struct ProviderModel {
    pub host_name: Seq<u8>,
    pub log: Seq<Seq<u8>>,
    pub log_cap: usize,
    pub counter: i64,
}

impl View for CapabilityProvider {
    type V = ProviderModel;

    open spec fn view(&self) -> ProviderModel {
        ProviderModel {
            host_name: self.host_name@,
            log: self.log@.map_values(|e: Vec<u8>| e@),
            log_cap: self.log_cap,
            counter: self.counter,
        }
    }
}

impl CapabilityProvider {
    /// Build the host's provider with its logical name, an empty log of
    /// the given capacity, and the counter at zero.
    pub fn new(host_name: Vec<u8>, log_cap: usize) -> (r: CapabilityProvider)
        ensures
            r@.host_name == host_name@,
            r@.log == Seq::<Seq<u8>>::empty(),
            r@.log_cap == log_cap,
            r@.counter == 0,
    {
        let r = CapabilityProvider { host_name, log: Vec::new(), log_cap, counter: 0 };
        assert(r@.log =~= Seq::<Seq<u8>>::empty());
        r
    }

    /// The log entries appended so far, in order.
    pub fn log_entries(&self) -> (r: &Vec<Vec<u8>>)
        ensures
            r@.map_values(|e: Vec<u8>| e@) == self@.log,
    {
        &self.log
    }
}

/// What one capability call does: the provider afterwards, the resource
/// table afterwards, and the value returned, as a function of the
/// capability's position in [`host_world`] and the arguments.
///
/// `host-name` returns the host's logical name and changes nothing.
/// `log` appends its argument when the log is below capacity and is
/// otherwise ignored; it returns nothing. `counter-next` returns the
/// counter and advances it, saturating at the top of its range.
/// `grant-handle` appends a fresh entry to this context's resource table
/// and returns its index as an opaque handle.
pub open spec fn spec_apply_capability(
    p: ProviderModel,
    res: Seq<u64>,
    idx: int,
    args: Seq<ValueModel>,
) -> (ProviderModel, Seq<u64>, Option<ValueModel>) {
    if idx == 0 {
        (p, res, Some(ValueModel::Str(p.host_name)))
    } else if idx == 1 {
        if args.len() < 1 {
            (p, res, None)
        } else {
            match args[0] {
                ValueModel::Str(entry) => {
                    if p.log.len() < p.log_cap {
                        (ProviderModel { log: p.log.push(entry), ..p }, res, None)
                    } else {
                        (p, res, None)
                    }
                },
                _ => (p, res, None),
            }
        }
    } else if idx == 2 {
        let bumped = if p.counter == i64::MAX {
            p.counter
        } else {
            (p.counter + 1) as i64
        };
        (ProviderModel { counter: bumped, ..p }, res, Some(ValueModel::I64(p.counter)))
    } else if idx == 3 {
        (p, res.push(res.len() as u64), Some(ValueModel::Handle(res.len() as u64)))
    } else {
        (p, res, None)
    }
}

/// Perform one capability call against the provider and this context's
/// resource table.
pub fn apply_capability(
    p: &mut CapabilityProvider,
    res: &mut Vec<u64>,
    idx: usize,
    args: &Vec<Value>,
) -> (r: Option<Value>)
    requires
        idx < host_world().len(),
    ensures
        ({
            let (p2, res2, rv) = spec_apply_capability(
                old(p)@,
                old(res)@,
                idx as int,
                args@.map_values(|v: Value| v@),
            );
            &&& final(p)@ == p2
            &&& final(res)@ == res2
            &&& (match r {
                Some(v) => rv == Some(v@),
                None => rv is None,
            })
        }),
{
    if idx == 0 {
        Some(Value::Str(clone_bytes(&p.host_name)))
    } else if idx == 1 {
        if args.len() < 1 {
            return None;
        }
        let ghost am = args@.map_values(|v: Value| v@);
        proof {
            assert(am[0] == args@[0]@);
        }
        match &args[0] {
            Value::Str(entry) => {
                if p.log.len() < p.log_cap {
                    let owned = clone_bytes(entry);
                    p.log.push(owned);
                    proof {
                        assert(p@.log =~= old(p)@.log.push(entry@));
                    }
                }
                None
            },
            _ => None,
        }
    } else if idx == 2 {
        let prev: i64 = p.counter;
        if p.counter != i64::MAX {
            p.counter = p.counter + 1;
        }
        Some(Value::I64(prev))
    } else {
        let handle: u64 = res.len() as u64;
        res.push(handle);
        Some(Value::Handle(handle))
    }
}

} // verus!
