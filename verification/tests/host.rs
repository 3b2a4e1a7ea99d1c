use ziorc::AppStateConfig;
use ziorc::context::Limits;
use ziorc::discovery::{IpAddress, Peer};
use ziorc::iface::Value;
use ziorc::invoke::{Fault, Outcome, TrapKind};
use ziorc::module::LoadError;
use ziorc::state::{AppState, JobState, TrackError};

// ---- helpers -------------------------------------------------------

fn fresh_host() -> AppState {
    fresh_host_with_log_cap(8)
}

fn fresh_host_with_log_cap(log_cap: usize) -> AppState {
    let config = AppStateConfig { app_name: "testhost".to_string(), port: None };
    let myself = Peer {
        uuid: 7,
        hostname: "testhost.local.".to_string(),
        addresses: vec![IpAddress::V4(0x7F000001)],
        port: 4100,
        version: "0.1.0".to_string(),
    };
    AppState::new(config, myself, b"testhost".to_vec(), log_cap)
}

fn limits() -> Limits {
    Limits { max_memory: 64, fuel: 1000 }
}

/// A declaration: length-prefixed name, parameter type bytes, return
/// type byte (0 for void).
fn decl(name: &[u8], params: &[u8], ret: u8) -> Vec<u8> {
    let mut d = vec![name.len() as u8];
    d.extend_from_slice(name);
    d.push(params.len() as u8);
    d.extend_from_slice(params);
    d.push(ret);
    d
}

/// A whole container: magic, version 1, imports, exports with their code.
fn module_bytes(imports: &[Vec<u8>], exports: &[(Vec<u8>, Vec<u8>)]) -> Vec<u8> {
    let mut b = vec![0x5A, 0x50, 0x4C, 0x47, 1, imports.len() as u8];
    for imp in imports {
        b.extend_from_slice(imp);
    }
    b.push(exports.len() as u8);
    for (d, code) in exports {
        b.extend_from_slice(d);
        b.extend_from_slice(&(code.len() as u16).to_le_bytes());
        b.extend_from_slice(code);
    }
    b
}

fn op_push_i64(v: i64) -> Vec<u8> {
    let mut c = vec![2];
    c.extend_from_slice(&v.to_le_bytes());
    c
}

fn op_push_str(s: &[u8]) -> Vec<u8> {
    let mut c = vec![4];
    c.extend_from_slice(&(s.len() as u16).to_le_bytes());
    c.extend_from_slice(s);
    c
}

fn op_push_bytes(s: &[u8]) -> Vec<u8> {
    let mut c = vec![5];
    c.extend_from_slice(&(s.len() as u16).to_le_bytes());
    c.extend_from_slice(s);
    c
}

const OP_PUSH_PARAM0: [u8; 2] = [6, 0];
const OP_RETURN: u8 = 7;
const OP_ABORT: u8 = 8;
const OP_STORE_BYTE: u8 = 9;
const OP_LOAD_BYTE: u8 = 10;

fn op_call_import(i: u8) -> [u8; 2] {
    [11, i]
}

fn op_jump(t: u16) -> Vec<u8> {
    let mut c = vec![12];
    c.extend_from_slice(&t.to_le_bytes());
    c
}

/// Type bytes of the container format.
const TY_I64: u8 = 2;
const TY_STR: u8 = 4;
const TY_BYTES: u8 = 5;
const TY_HANDLE: u8 = 6;
const TY_VOID: u8 = 0;

fn hello_module() -> Vec<u8> {
    let mut code = op_push_str(b"Hello, World!");
    code.push(OP_RETURN);
    module_bytes(&[], &[(decl(b"hello-world", &[], TY_STR), code)])
}

fn run_one(host: &mut AppState, module: usize, export: &[u8], input: Vec<Value>) -> u64 {
    host.submit_and_run(module, export.to_vec(), input, limits())
        .expect("module index should be valid")
}

fn job_outcome(host: &AppState, id: u64) -> Outcome {
    let job = host.status(id).expect("job should exist");
    job.outcome.clone().expect("job should be finalized")
}

// ---- the example plugin -------------------------------------------

#[test]
fn test_example() {
    let mut host = fresh_host();
    let ix = host.install_module(&hello_module()).expect("valid module should load");
    let id = run_one(&mut host, ix, b"hello-world", vec![]);
    let output = match job_outcome(&host, id) {
        Outcome::Completed(Some(Value::Str(s))) => String::from_utf8(s).unwrap(),
        _ => panic!("hello-world should complete with a string"),
    };
    assert_eq!(output, "Hello, World!");
}

// ---- loading and validation ---------------------------------------

#[test]
fn valid_module_reaches_terminal_state() {
    let mut host = fresh_host();
    let ix = host.install_module(&hello_module()).expect("valid module should load");
    let id = run_one(&mut host, ix, b"hello-world", vec![]);
    let job = host.status(id).expect("job should exist");
    assert!(matches!(
        job.state,
        JobState::Completed | JobState::Faulted | JobState::TimedOut | JobState::ResourceExhausted
    ));
    assert_eq!(job.state, JobState::Completed);
}

#[test]
fn unmet_import_is_interface_mismatch() {
    let mut host = fresh_host();
    let mut code = op_push_i64(1);
    code.push(OP_RETURN);
    let bytes = module_bytes(
        &[decl(b"missing-cap", &[], TY_I64)],
        &[(decl(b"go", &[], TY_I64), code)],
    );
    assert_eq!(host.install_module(&bytes), Err(LoadError::InterfaceMismatch));
    // Nothing was instantiated or retained.
    assert_eq!(host.module_count(), 0);
    assert_eq!(host.jobs().len(), 0);
}

#[test]
fn wrong_signature_is_interface_mismatch() {
    let mut host = fresh_host();
    // host-name exists, but with no parameters and a string return.
    let mut code = vec![];
    code.push(OP_RETURN);
    let bytes = module_bytes(
        &[decl(b"host-name", &[TY_I64], TY_STR)],
        &[(decl(b"go", &[], TY_VOID), code)],
    );
    assert_eq!(host.install_module(&bytes), Err(LoadError::InterfaceMismatch));
}

#[test]
fn malformed_binaries_are_rejected() {
    let mut host = fresh_host();
    // Too short.
    assert_eq!(host.install_module(&vec![0x5A, 0x50]), Err(LoadError::Malformed));
    // Wrong magic.
    assert_eq!(
        host.install_module(&vec![0x00, 0x50, 0x4C, 0x47, 1, 0, 0]),
        Err(LoadError::Malformed)
    );
    // Trailing garbage after a valid container.
    let mut bytes = hello_module();
    bytes.push(0xFF);
    assert_eq!(host.install_module(&bytes), Err(LoadError::Malformed));
    // Truncated declaration.
    assert_eq!(
        host.install_module(&vec![0x5A, 0x50, 0x4C, 0x47, 1, 1, 9, 102]),
        Err(LoadError::Malformed)
    );
}

#[test]
fn unsupported_features_are_rejected() {
    let mut host = fresh_host();
    // Unknown format version.
    assert_eq!(
        host.install_module(&vec![0x5A, 0x50, 0x4C, 0x47, 2, 0, 0]),
        Err(LoadError::UnsupportedFeature)
    );
    // Unknown opcode in an export body.
    let bytes = module_bytes(&[], &[(decl(b"go", &[], TY_VOID), vec![0x3F])]);
    assert_eq!(host.install_module(&bytes), Err(LoadError::UnsupportedFeature));
    // Unknown type byte in a declaration.
    let bytes = module_bytes(&[], &[(decl(b"go", &[99], TY_VOID), vec![OP_RETURN])]);
    assert_eq!(host.install_module(&bytes), Err(LoadError::UnsupportedFeature));
}

#[test]
fn digest_identifies_the_binary() {
    let mut host = fresh_host();
    let bytes = hello_module();
    let ix = host.install_module(&bytes).unwrap();
    // The digest is the 64-bit fold of the binary.
    let mut expected: u64 = 0xcbf29ce484222325;
    for b in &bytes {
        expected = (expected ^ (*b as u64)).wrapping_mul(0x100000001b3);
    }
    assert_eq!(host.module_digest(ix), Some(expected));
    // The same binary installed again carries the same identity.
    let ix2 = host.install_module(&bytes).unwrap();
    assert_eq!(host.module_digest(ix), host.module_digest(ix2));
    // A job records the digest of the module it runs.
    let id = run_one(&mut host, ix, b"hello-world", vec![]);
    assert_eq!(host.status(id).unwrap().plugin_id, expected);
}

// ---- fault isolation ----------------------------------------------

#[test]
fn out_of_bounds_write_faults_and_host_survives() {
    let mut host = fresh_host();
    let mut code = op_push_i64(9999);
    code.extend_from_slice(&op_push_i64(7));
    code.push(OP_STORE_BYTE);
    let bytes = module_bytes(&[], &[(decl(b"smash", &[], TY_VOID), code)]);
    let ix = host.install_module(&bytes).unwrap();
    let id = run_one(&mut host, ix, b"smash", vec![]);
    let job = host.status(id).unwrap();
    assert_eq!(job.state, JobState::Faulted);
    assert!(matches!(
        job_outcome(&host, id),
        Outcome::Faulted(Fault::Trap(TrapKind::OutOfBoundsMemory))
    ));
    // The host remains responsive to a subsequent submission.
    let hx = host.install_module(&hello_module()).unwrap();
    let id2 = run_one(&mut host, hx, b"hello-world", vec![]);
    assert_eq!(host.status(id2).unwrap().state, JobState::Completed);
}

#[test]
fn explicit_abort_faults() {
    let mut host = fresh_host();
    let bytes = module_bytes(&[], &[(decl(b"bail", &[], TY_VOID), vec![OP_ABORT])]);
    let ix = host.install_module(&bytes).unwrap();
    let id = run_one(&mut host, ix, b"bail", vec![]);
    assert!(matches!(job_outcome(&host, id), Outcome::Faulted(Fault::ExplicitAbort)));
}

#[test]
fn undeclared_import_position_faults() {
    let mut host = fresh_host();
    let mut code = op_call_import(0).to_vec();
    code.push(OP_RETURN);
    let bytes = module_bytes(&[], &[(decl(b"rogue", &[], TY_VOID), code)]);
    let ix = host.install_module(&bytes).unwrap();
    let id = run_one(&mut host, ix, b"rogue", vec![]);
    assert!(matches!(job_outcome(&host, id), Outcome::Faulted(Fault::IllegalImport)));
}

#[test]
fn unknown_export_and_bad_arguments_fault() {
    let mut host = fresh_host();
    let ix = host.install_module(&hello_module()).unwrap();
    let id = run_one(&mut host, ix, b"no-such-export", vec![]);
    assert!(matches!(
        job_outcome(&host, id),
        Outcome::Faulted(Fault::Trap(TrapKind::NoSuchExport))
    ));
    let id2 = run_one(&mut host, ix, b"hello-world", vec![Value::I64(3)]);
    assert!(matches!(
        job_outcome(&host, id2),
        Outcome::Faulted(Fault::Trap(TrapKind::ArgumentMismatch))
    ));
}

// ---- budgets -------------------------------------------------------

#[test]
fn fuel_exhaustion_times_out() {
    let mut host = fresh_host();
    let bytes = module_bytes(&[], &[(decl(b"spin", &[], TY_VOID), op_jump(0))]);
    let ix = host.install_module(&bytes).unwrap();
    let lim = Limits { max_memory: 16, fuel: 10 };
    let id = host.submit_and_run(ix, b"spin".to_vec(), vec![], lim).unwrap();
    assert_eq!(host.status(id).unwrap().state, JobState::TimedOut);
    assert!(matches!(job_outcome(&host, id), Outcome::TimedOut));
}

#[test]
fn excessive_memory_request_is_resource_exhausted() {
    let mut host = fresh_host();
    let ix = host.install_module(&hello_module()).unwrap();
    let lim = Limits { max_memory: 8 * 1024 * 1024, fuel: 100 };
    let id = host.submit_and_run(ix, b"hello-world".to_vec(), vec![], lim).unwrap();
    assert_eq!(host.status(id).unwrap().state, JobState::ResourceExhausted);
    assert!(matches!(job_outcome(&host, id), Outcome::ResourceExhausted));
}

// ---- independent contexts -----------------------------------------

#[test]
fn concurrent_submissions_are_independent() {
    let mut host = fresh_host();
    let mut code = op_call_import(0).to_vec();
    code.push(OP_RETURN);
    let bytes = module_bytes(
        &[decl(b"grant-handle", &[], TY_HANDLE)],
        &[(decl(b"grab", &[], TY_HANDLE), code)],
    );
    let ix = host.install_module(&bytes).unwrap();
    let id1 = run_one(&mut host, ix, b"grab", vec![]);
    let id2 = run_one(&mut host, ix, b"grab", vec![]);
    assert_ne!(id1, id2);
    // Each invocation got a fresh, empty resource table: both handles
    // are the first entry of their own context's table, so no entry was
    // shared between the two contexts.
    assert!(matches!(job_outcome(&host, id1), Outcome::Completed(Some(Value::Handle(0)))));
    assert!(matches!(job_outcome(&host, id2), Outcome::Completed(Some(Value::Handle(0)))));
}

// ---- the tracker ---------------------------------------------------

#[test]
fn status_unknown_and_list_in_order() {
    let mut host = fresh_host();
    assert!(host.status(99).is_none());
    let ix = host.install_module(&hello_module()).unwrap();
    let a = run_one(&mut host, ix, b"hello-world", vec![]);
    let b = run_one(&mut host, ix, b"hello-world", vec![]);
    let c = run_one(&mut host, ix, b"hello-world", vec![]);
    assert_eq!((a, b, c), (0, 1, 2));
    let jobs = host.jobs();
    assert_eq!(jobs.len(), 3);
    assert_eq!(jobs[0].job_id, 0);
    assert_eq!(jobs[1].job_id, 1);
    assert_eq!(jobs[2].job_id, 2);
}

#[test]
fn finalization_happens_exactly_once() {
    let mut host = fresh_host();
    let ix = host.install_module(&hello_module()).unwrap();
    let id = host.start_job(ix, b"hello-world".to_vec(), vec![], limits()).unwrap();
    assert_eq!(host.status(id).unwrap().state, JobState::Pending);
    assert!(host.status(id).unwrap().outcome.is_none());
    assert_eq!(host.run_job(id), Ok(()));
    assert_eq!(host.run_job(id), Err(TrackError::AlreadyFinal));
    assert_eq!(host.run_job(42), Err(TrackError::NotFound));
    assert_eq!(host.finalize_job(id, Outcome::TimedOut), Err(TrackError::AlreadyFinal));
    assert_eq!(host.status(id).unwrap().state, JobState::Completed);
}

#[test]
fn unknown_module_index_is_refused() {
    let mut host = fresh_host();
    assert!(host.submit_and_run(3, b"x".to_vec(), vec![], limits()).is_none());
    assert_eq!(host.jobs().len(), 0);
}

// ---- round trips ---------------------------------------------------

fn identity_module() -> Vec<u8> {
    let mut code = OP_PUSH_PARAM0.to_vec();
    code.push(OP_RETURN);
    module_bytes(
        &[],
        &[
            (decl(b"echo-int", &[TY_I64], TY_I64), code.clone()),
            (decl(b"echo-str", &[TY_STR], TY_STR), code.clone()),
            (decl(b"echo-bytes", &[TY_BYTES], TY_BYTES), code),
        ],
    )
}

#[test]
fn identity_round_trips_integers() {
    let mut host = fresh_host();
    let ix = host.install_module(&identity_module()).unwrap();
    let id = run_one(&mut host, ix, b"echo-int", vec![Value::I64(-40320)]);
    match job_outcome(&host, id) {
        Outcome::Completed(Some(Value::I64(x))) => assert_eq!(x, -40320),
        _ => panic!("echo-int should complete with an integer"),
    }
}

#[test]
fn identity_round_trips_strings() {
    let mut host = fresh_host();
    let ix = host.install_module(&identity_module()).unwrap();
    let id = run_one(&mut host, ix, b"echo-str", vec![Value::Str(b"plugh xyzzy".to_vec())]);
    match job_outcome(&host, id) {
        Outcome::Completed(Some(Value::Str(s))) => assert_eq!(s, b"plugh xyzzy".to_vec()),
        _ => panic!("echo-str should complete with a string"),
    }
}

#[test]
fn identity_round_trips_byte_buffers() {
    let mut host = fresh_host();
    let ix = host.install_module(&identity_module()).unwrap();
    let payload = vec![0u8, 255, 3, 17];
    let id = run_one(&mut host, ix, b"echo-bytes", vec![Value::Bytes(payload.clone())]);
    match job_outcome(&host, id) {
        Outcome::Completed(Some(Value::Bytes(s))) => assert_eq!(s, payload),
        _ => panic!("echo-bytes should complete with a byte buffer"),
    }
}

// ---- capabilities --------------------------------------------------

#[test]
fn host_name_capability_returns_the_label() {
    let mut host = fresh_host();
    let mut code = op_call_import(0).to_vec();
    code.push(OP_RETURN);
    let bytes = module_bytes(
        &[decl(b"host-name", &[], TY_STR)],
        &[(decl(b"whoami", &[], TY_STR), code)],
    );
    let ix = host.install_module(&bytes).unwrap();
    let id = run_one(&mut host, ix, b"whoami", vec![]);
    match job_outcome(&host, id) {
        Outcome::Completed(Some(Value::Str(s))) => assert_eq!(s, b"testhost".to_vec()),
        _ => panic!("whoami should complete with the host label"),
    }
}

#[test]
fn counter_capability_is_shared_across_invocations() {
    let mut host = fresh_host();
    let mut code = op_call_import(0).to_vec();
    code.push(OP_RETURN);
    let bytes = module_bytes(
        &[decl(b"counter-next", &[], TY_I64)],
        &[(decl(b"tick", &[], TY_I64), code)],
    );
    let ix = host.install_module(&bytes).unwrap();
    let id1 = run_one(&mut host, ix, b"tick", vec![]);
    let id2 = run_one(&mut host, ix, b"tick", vec![]);
    // The provider outlives each context: the counter advances across
    // invocations while each context's memory and table stay private.
    assert!(matches!(job_outcome(&host, id1), Outcome::Completed(Some(Value::I64(0)))));
    assert!(matches!(job_outcome(&host, id2), Outcome::Completed(Some(Value::I64(1)))));
}

#[test]
fn log_capability_is_bounded() {
    let mut host = fresh_host_with_log_cap(1);
    let mut code = op_push_str(b"first");
    code.extend_from_slice(&op_call_import(0));
    code.push(OP_RETURN);
    let mut code2 = op_push_str(b"second");
    code2.extend_from_slice(&op_call_import(0));
    code2.push(OP_RETURN);
    let bytes = module_bytes(
        &[decl(b"log", &[TY_STR], TY_VOID)],
        &[
            (decl(b"note-first", &[], TY_VOID), code),
            (decl(b"note-second", &[], TY_VOID), code2),
        ],
    );
    let ix = host.install_module(&bytes).unwrap();
    run_one(&mut host, ix, b"note-first", vec![]);
    run_one(&mut host, ix, b"note-second", vec![]);
    // The second append was beyond the bound and was dropped.
    let log = host.provider().log_entries();
    assert_eq!(log.len(), 1);
    assert_eq!(log[0], b"first".to_vec());
}

// ---- memory semantics ---------------------------------------------

#[test]
fn fresh_memory_is_zeroed_and_stores_keep_the_low_byte() {
    let mut host = fresh_host();
    // peek: read byte 5 of untouched memory.
    let mut peek = op_push_i64(5);
    peek.push(OP_LOAD_BYTE);
    peek.push(OP_RETURN);
    // poke: store 0x1AB at byte 3, then read it back.
    let mut poke = op_push_i64(3);
    poke.extend_from_slice(&op_push_i64(0x1AB));
    poke.push(OP_STORE_BYTE);
    poke.extend_from_slice(&op_push_i64(3));
    poke.push(OP_LOAD_BYTE);
    poke.push(OP_RETURN);
    let bytes = module_bytes(
        &[],
        &[
            (decl(b"peek", &[], TY_I64), peek),
            (decl(b"poke", &[], TY_I64), poke),
        ],
    );
    let ix = host.install_module(&bytes).unwrap();
    let id1 = run_one(&mut host, ix, b"peek", vec![]);
    assert!(matches!(job_outcome(&host, id1), Outcome::Completed(Some(Value::I64(0)))));
    let id2 = run_one(&mut host, ix, b"poke", vec![]);
    // Only the low byte of 0x1AB survives the store.
    assert!(matches!(job_outcome(&host, id2), Outcome::Completed(Some(Value::I64(0xAB)))));
}

// ---- peers ---------------------------------------------------------

#[test]
fn peer_snapshot_is_kept_in_order() {
    let mut host = fresh_host();
    assert_eq!(host.peers().len(), 0);
    let peers = vec![
        Peer {
            uuid: 1,
            hostname: "a.local.".to_string(),
            addresses: vec![IpAddress::V4(0x0A000001)],
            port: 1,
            version: "0.1.0".to_string(),
        },
        Peer {
            uuid: 2,
            hostname: "b.local.".to_string(),
            addresses: vec![IpAddress::V6(1)],
            port: 2,
            version: "0.1.0".to_string(),
        },
    ];
    host.set_peers(peers);
    let got = host.peers();
    assert_eq!(got.len(), 2);
    assert_eq!(got[0].hostname, "a.local.");
    assert_eq!(got[1].hostname, "b.local.");
    assert_eq!(host.myself().hostname, "testhost.local.");
    assert_eq!(host.config().app_name, "testhost");
}
