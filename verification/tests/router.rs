use node_kernel::capabilities::CapabilityOracle;
use node_kernel::message::{KernelMessage, Message, Request, Response};
use node_kernel::router::{
    exit_plan, is_run_message, kernel_process_id, one_way_message, route, Dispatch, DropReason,
    ExitAction, KernelCommand, OnPanic, ProcessMetadata, ProcessTable,
};
use node_kernel::types::{Address, Capability, Payload, ProcessId, SignedCapability};

fn address(node: &str, process: &str) -> Address {
    Address { node: node.to_string(), process: ProcessId::Name(process.to_string()) }
}

fn name(n: &str) -> ProcessId {
    ProcessId::Name(n.to_string())
}

fn request(expects_response: Option<u64>, body: &str) -> Request {
    Request {
        inherit: false,
        expects_response,
        body: body.as_bytes().to_vec(),
        metadata: None,
        capabilities: vec![],
    }
}

fn metadata(process: &str, on_panic: OnPanic) -> ProcessMetadata {
    ProcessMetadata { our: address("x", process), wasm_bytes_handle: 17, on_panic }
}

fn messaging(node: &str, process: &str) -> SignedCapability {
    SignedCapability {
        issuer: address(node, process),
        params: "\"messaging\"".to_string(),
        signature: vec![1],
    }
}

fn run(our_node: &str) -> KernelMessage {
    KernelMessage {
        id: 1,
        source: address(our_node, "kernel"),
        target: address(our_node, "a"),
        rsvp: None,
        message: Message::Request(request(None, "run")),
        payload: None,
    }
}

#[test]
fn kernel_process_is_named_kernel() {
    assert_eq!(kernel_process_id(), name("kernel"));
}

#[test]
fn run_message_is_recognised() {
    assert!(is_run_message(&"x".to_string(), &run("x")));
}

#[test]
fn run_message_must_come_from_our_kernel() {
    let mut km = run("x");
    km.source = address("y", "kernel");
    assert!(!is_run_message(&"x".to_string(), &km));
    let mut km = run("x");
    km.source = address("x", "terminal");
    assert!(!is_run_message(&"x".to_string(), &km));
    let mut km = run("x");
    km.source = Address { node: "x".to_string(), process: ProcessId::Id(0) };
    assert!(!is_run_message(&"x".to_string(), &km));
}

#[test]
fn run_message_must_be_the_plain_request() {
    let node = "x".to_string();
    let mut km = run("x");
    km.message = Message::Request(request(None, "ru"));
    assert!(!is_run_message(&node, &km));
    km.message = Message::Request(request(None, "runs"));
    assert!(!is_run_message(&node, &km));
    km.message = Message::Request(request(None, "Run"));
    assert!(!is_run_message(&node, &km));
    km.message = Message::Request(request(Some(5), "run"));
    assert!(!is_run_message(&node, &km));
    let mut r = request(None, "run");
    r.inherit = true;
    km.message = Message::Request(r);
    assert!(!is_run_message(&node, &km));
    let mut r = request(None, "run");
    r.metadata = Some("m".to_string());
    km.message = Message::Request(r);
    assert!(!is_run_message(&node, &km));
    let mut r = request(None, "run");
    r.capabilities = vec![messaging("x", "b")];
    km.message = Message::Request(r);
    assert!(!is_run_message(&node, &km));
    km.message = Message::Response(
        Response { inherit: false, body: b"run".to_vec(), metadata: None, capabilities: vec![] },
        None,
    );
    assert!(!is_run_message(&node, &km));
    // id, target, rsvp and payload do not matter
    let mut km = run("x");
    km.id = 99;
    km.rsvp = Some(address("x", "q"));
    km.payload = Some(Payload { mime: None, bytes: vec![1] });
    assert!(is_run_message(&node, &km));
}

#[test]
fn exit_without_policy_only_kills() {
    let oracle = CapabilityOracle::new();
    for crashed in [false, true] {
        let plan = exit_plan(metadata("a", OnPanic::Nothing), crashed, &oracle);
        assert_eq!(plan, vec![ExitAction::Kill(name("a"))]);
    }
}

#[test]
fn clean_exit_with_restart_reboots_with_same_capabilities() {
    let mut oracle = CapabilityOracle::new();
    oracle.add(&name("a"), vec![messaging("x", "b"), messaging("y", "c")]);
    oracle.add(&name("other"), vec![messaging("x", "z")]);
    let plan = exit_plan(metadata("a", OnPanic::Restart), false, &oracle);
    assert_eq!(
        plan,
        vec![
            ExitAction::Kill(name("a")),
            ExitAction::Reboot {
                process_id: name("a"),
                wasm_bytes_handle: 17,
                on_panic: OnPanic::Restart,
                initial_capabilities: vec![
                    Capability { issuer: address("x", "b"), params: "\"messaging\"".to_string() },
                    Capability { issuer: address("y", "c"), params: "\"messaging\"".to_string() },
                ],
            },
            ExitAction::Run(name("a")),
        ]
    );
}

#[test]
fn crash_with_restart_does_not_reboot() {
    let mut oracle = CapabilityOracle::new();
    oracle.add(&name("a"), vec![messaging("x", "b")]);
    let plan = exit_plan(metadata("a", OnPanic::Restart), true, &oracle);
    assert_eq!(plan, vec![ExitAction::Kill(name("a"))]);
}

#[test]
fn final_requests_go_only_to_authorized_targets() {
    let mut oracle = CapabilityOracle::new();
    oracle.add(&name("a"), vec![messaging("x", "b"), messaging("y", "d")]);
    oracle.add(&name("other"), vec![messaging("x", "c")]);
    let blob = Some(Payload { mime: None, bytes: vec![4] });
    let policy = OnPanic::Requests(vec![
        (address("x", "b"), request(Some(9), "bye b"), blob.clone()),
        (address("x", "c"), request(None, "bye c"), None),
        (address("y", "d"), request(None, "bye d"), None),
    ]);
    for crashed in [false, true] {
        let plan = exit_plan(metadata("a", policy.clone()), crashed, &oracle);
        assert_eq!(
            plan,
            vec![
                ExitAction::Kill(name("a")),
                ExitAction::Send {
                    target: address("x", "b"),
                    // the request is made one-way
                    request: request(None, "bye b"),
                    payload: blob.clone(),
                },
                ExitAction::Send {
                    target: address("y", "d"),
                    request: request(None, "bye d"),
                    payload: None,
                },
            ]
        );
    }
}

#[test]
fn final_requests_need_the_messaging_capability_itself() {
    let mut oracle = CapabilityOracle::new();
    oracle.add(
        &name("a"),
        vec![SignedCapability {
            issuer: address("x", "b"),
            params: "messaging".to_string(),
            signature: vec![],
        }],
    );
    let policy = OnPanic::Requests(vec![(address("x", "b"), request(None, "bye"), None)]);
    let plan = exit_plan(metadata("a", policy), false, &oracle);
    assert_eq!(plan, vec![ExitAction::Kill(name("a"))]);
}

#[test]
fn exit_actions_as_commands() {
    assert_eq!(
        ExitAction::Kill(name("a")).command(),
        Some(KernelCommand::KillProcess(name("a")))
    );
    assert_eq!(ExitAction::Run(name("a")).command(), Some(KernelCommand::RunProcess(name("a"))));
    assert_eq!(
        ExitAction::Reboot {
            process_id: name("a"),
            wasm_bytes_handle: 3,
            on_panic: OnPanic::Restart,
            initial_capabilities: vec![],
        }
        .command(),
        Some(KernelCommand::RebootProcess {
            process_id: name("a"),
            wasm_bytes_handle: 3,
            on_panic: OnPanic::Restart,
            initial_capabilities: vec![],
        })
    );
    assert_eq!(
        ExitAction::Send { target: address("x", "b"), request: request(None, "x"), payload: None }
            .command(),
        None
    );
}

#[test]
fn one_way_message_owes_nobody() {
    let km = one_way_message(5, address("x", "a"), address("x", "b"), request(None, "bye"), None);
    assert_eq!(
        km,
        KernelMessage {
            id: 5,
            source: address("x", "a"),
            target: address("x", "b"),
            rsvp: None,
            message: Message::Request(request(None, "bye")),
            payload: None,
        }
    );
}

#[test]
fn on_panic_clone_is_equal() {
    let policy = OnPanic::Requests(vec![(
        address("x", "b"),
        request(Some(1), "bye"),
        Some(Payload { mime: Some("m".to_string()), bytes: vec![1, 2] }),
    )]);
    assert_eq!(policy.clone(), policy);
    assert_eq!(OnPanic::Restart.clone(), OnPanic::Restart);
    assert_eq!(OnPanic::Nothing.clone(), OnPanic::Nothing);
}

#[test]
fn process_table_registers_replaces_and_removes() {
    let mut table = ProcessTable::new();
    assert!(!table.contains(&name("a")));
    assert_eq!(table.get(&name("a")), None);
    table.register(metadata("a", OnPanic::Nothing));
    table.register(metadata("b", OnPanic::Restart));
    assert!(table.contains(&name("a")));
    assert_eq!(table.get(&name("b")), Some(&metadata("b", OnPanic::Restart)));
    table.register(metadata("a", OnPanic::Restart));
    assert_eq!(table.get(&name("a")), Some(&metadata("a", OnPanic::Restart)));
    assert_eq!(table.remove(&name("a")), Some(metadata("a", OnPanic::Restart)));
    assert_eq!(table.remove(&name("a")), None);
    assert!(!table.contains(&name("a")));
    assert!(table.contains(&name("b")));
}

fn message(source: Address, target: Address) -> KernelMessage {
    KernelMessage {
        id: 1,
        source,
        target,
        rsvp: None,
        message: Message::Request(request(None, "x")),
        payload: None,
    }
}

#[test]
fn route_sends_foreign_targets_to_the_transport() {
    let table = ProcessTable::new();
    let km = message(address("x", "a"), address("y", "kernel"));
    assert_eq!(route(&"x".to_string(), &table, &km), Dispatch::Remote);
    let km = message(address("x", "a"), address("y", "b"));
    assert_eq!(route(&"x".to_string(), &table, &km), Dispatch::Remote);
}

#[test]
fn route_delivers_to_known_local_processes() {
    let mut table = ProcessTable::new();
    table.register(metadata("b", OnPanic::Nothing));
    let node = "x".to_string();
    assert_eq!(
        route(&node, &table, &message(address("x", "a"), address("x", "b"))),
        Dispatch::Local
    );
    assert_eq!(
        route(&node, &table, &message(address("y", "a"), address("x", "b"))),
        Dispatch::Local
    );
    assert_eq!(
        route(&node, &table, &message(address("x", "a"), address("x", "c"))),
        Dispatch::Dropped(DropReason::UnknownProcess)
    );
}

#[test]
fn route_takes_kernel_commands_from_this_node_only() {
    let table = ProcessTable::new();
    let node = "x".to_string();
    assert_eq!(
        route(&node, &table, &message(address("x", "a"), address("x", "kernel"))),
        Dispatch::Kernel
    );
    assert_eq!(
        route(&node, &table, &message(address("y", "a"), address("x", "kernel"))),
        Dispatch::Dropped(DropReason::ForeignCommand)
    );
}
