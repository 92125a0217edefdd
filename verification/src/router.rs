//! The kernel router: which processes exist, where a message goes, and what
//! is done when a process ends.

use vstd::prelude::*;
use crate::capabilities::{held_by, holds, strip_signatures, CapabilityOracle, GrantView};
use crate::message::{
    KernelMessage, KernelMessageView, Message, MessageView, Request, RequestView,
};
use crate::types::{
    capabilities_of, clone_bytes, clone_option_payload, clone_option_string, Address, AddressView,
    Capability, CapabilityView, Payload, PayloadView, ProcessId, ProcessIdView,
};

verus! {

/// What is done when a process ends.
#[derive(Debug, PartialEq, Eq)]
pub enum OnPanic {
    /// Nothing.
    Nothing,
    /// The process is started again, with the capabilities it held.
    Restart,
    /// These requests are sent, each to a target that the process may
    /// still message.
    Requests(Vec<(Address, Request, Option<Payload>)>),
}

/// The mathematical value of an `OnPanic`.
pub enum OnPanicView {
    Nothing,
    Restart,
    Requests(Seq<(AddressView, RequestView, Option<PayloadView>)>),
}

impl View for OnPanic {
    type V = OnPanicView;

    open spec fn view(&self) -> OnPanicView {
        match self {
            OnPanic::Nothing => OnPanicView::Nothing,
            OnPanic::Restart => OnPanicView::Restart,
            OnPanic::Requests(r) => OnPanicView::Requests(r.deep_view()),
        }
    }
}

impl DeepView for OnPanic {
    type V = OnPanicView;

    open spec fn deep_view(&self) -> OnPanicView {
        self@
    }
}

impl Clone for OnPanic {
    fn clone(&self) -> (res: Self)
        ensures
            res@ == self@,
    {
        match self {
            OnPanic::Nothing => OnPanic::Nothing,
            OnPanic::Restart => OnPanic::Restart,
            OnPanic::Requests(list) => {
                let mut out: Vec<(Address, Request, Option<Payload>)> = Vec::new();
                let mut i: usize = 0;
                while i < list.len()
                    invariant
                        i <= list.len(),
                        out@.len() == i,
                        forall|j: int| 0 <= j < i ==> out@[j].deep_view() == list@[j].deep_view(),
                    decreases list.len() - i,
                {
                    let item = &list[i];
                    out.push((item.0.clone(), item.1.clone(), clone_option_payload(&item.2)));
                    i += 1;
                }
                assert(out.deep_view() =~= list.deep_view());
                OnPanic::Requests(out)
            },
        }
    }
}

/// What the kernel keeps about a process so that it can start it again.
#[derive(Debug, PartialEq, Eq)]
pub struct ProcessMetadata {
    pub our: Address,
    pub wasm_bytes_handle: u128,
    pub on_panic: OnPanic,
}

/// The mathematical value of a `ProcessMetadata`.
pub struct ProcessMetadataView {
    pub our: AddressView,
    pub wasm_bytes_handle: u128,
    pub on_panic: OnPanicView,
}

impl View for ProcessMetadata {
    type V = ProcessMetadataView;

    open spec fn view(&self) -> ProcessMetadataView {
        ProcessMetadataView {
            our: self.our@,
            wasm_bytes_handle: self.wasm_bytes_handle,
            on_panic: self.on_panic@,
        }
    }
}

impl DeepView for ProcessMetadata {
    type V = ProcessMetadataView;

    open spec fn deep_view(&self) -> ProcessMetadataView {
        self@
    }
}

impl Clone for ProcessMetadata {
    fn clone(&self) -> (res: Self)
        ensures
            res@ == self@,
    {
        ProcessMetadata {
            our: self.our.clone(),
            wasm_bytes_handle: self.wasm_bytes_handle,
            on_panic: self.on_panic.clone(),
        }
    }
}

/// The name of the kernel's own process.
pub open spec fn kernel_process() -> ProcessIdView {
    ProcessIdView::Name("kernel"@)
}

/// The kernel's own process id.
pub fn kernel_process_id() -> (res: ProcessId)
    ensures
        res@ == kernel_process(),
{
    ProcessId::Name("kernel".to_owned())
}

/// The bytes of the word `run`.
pub open spec fn run_body() -> Seq<u8> {
    seq![114u8, 117u8, 110u8]
}

/// The message with which the kernel lets a process begin: a request from
/// the kernel of this node that inherits nothing, expects no response and
/// carries the word `run` and nothing else.
pub open spec fn run_message(our_node: Seq<char>, km: KernelMessageView) -> bool {
    &&& km.source == AddressView { node: our_node, process: kernel_process() }
    &&& km.message == MessageView::Request(
        RequestView {
            inherit: false,
            expects_response: None,
            body: run_body(),
            metadata: None,
            capabilities: Seq::empty(),
        },
    )
}

/// Whether `km` lets the process begin. Until such a message comes, what
/// arrives for a process is kept back.
pub fn is_run_message(our_node: &String, km: &KernelMessage) -> (res: bool)
    ensures
        res == run_message(our_node@, km@),
{
    proof {
        reveal_strlit("kernel");
    }
    let kernel = kernel_process_id();
    if !(km.source.node == *our_node && km.source.process.same(&kernel)) {
        return false;
    }
    match &km.message {
        Message::Request(r) => {
            let plain = !r.inherit && r.expects_response.is_none() && r.metadata.is_none()
                && r.capabilities.len() == 0;
            let run = r.body.len() == 3 && r.body[0] == 114 && r.body[1] == 117 && r.body[2]
                == 110;
            proof {
                if plain {
                    assert(r@.capabilities =~= Seq::empty());
                }
                if run {
                    assert(r@.body =~= run_body());
                }
                if r@.body == run_body() {
                    assert(run_body().len() == 3);
                    assert(run_body()[0] == 114 && run_body()[1] == 117 && run_body()[2] == 110);
                }
                if r@.capabilities == Seq::<crate::types::SignedCapabilityView>::empty() {
                    assert(r.capabilities@.len() == r@.capabilities.len());
                }
            }
            plain && run
        },
        Message::Response(_, _) => false,
    }
}

/// The capability that lets a process send messages to `target`.
pub open spec fn messaging_capability(target: AddressView) -> CapabilityView {
    CapabilityView { issuer: target, params: "\"messaging\""@ }
}

/// One thing that the kernel does when a process has ended.
#[derive(Debug, PartialEq, Eq)]
pub enum ExitAction {
    /// Remove the process from the kernel's table.
    Kill(ProcessId),
    /// Set the process up again with what it had.
    Reboot {
        process_id: ProcessId,
        wasm_bytes_handle: u128,
        on_panic: OnPanic,
        initial_capabilities: Vec<Capability>,
    },
    /// Let the process begin.
    Run(ProcessId),
    /// Send this request in the name of the process: one way, under a new
    /// id, with nobody owed a response.
    Send { target: Address, request: Request, payload: Option<Payload> },
}

/// The mathematical value of an `ExitAction`.
pub enum ExitActionView {
    Kill(ProcessIdView),
    Reboot {
        process_id: ProcessIdView,
        wasm_bytes_handle: u128,
        on_panic: OnPanicView,
        initial_capabilities: Seq<CapabilityView>,
    },
    Run(ProcessIdView),
    Send { target: AddressView, request: RequestView, payload: Option<PayloadView> },
}

impl View for ExitAction {
    type V = ExitActionView;

    open spec fn view(&self) -> ExitActionView {
        match self {
            ExitAction::Kill(p) => ExitActionView::Kill(p@),
            ExitAction::Reboot { process_id, wasm_bytes_handle, on_panic, initial_capabilities } =>
                ExitActionView::Reboot {
                process_id: process_id@,
                wasm_bytes_handle: *wasm_bytes_handle,
                on_panic: on_panic@,
                initial_capabilities: initial_capabilities.deep_view(),
            },
            ExitAction::Run(p) => ExitActionView::Run(p@),
            ExitAction::Send { target, request, payload } => ExitActionView::Send {
                target: target@,
                request: request@,
                payload: payload.deep_view(),
            },
        }
    }
}

impl DeepView for ExitAction {
    type V = ExitActionView;

    open spec fn deep_view(&self) -> ExitActionView {
        self@
    }
}

/// The last requests of a process that are actually sent: those whose
/// target the process may message, in order, each turned into a request
/// that expects no response.
pub open spec fn final_requests(
    grants: Seq<GrantView>,
    process: ProcessIdView,
    requests: Seq<(AddressView, RequestView, Option<PayloadView>)>,
) -> Seq<ExitActionView>
    decreases requests.len(),
{
    if requests.len() == 0 {
        Seq::empty()
    } else {
        let rest = final_requests(grants, process, requests.drop_last());
        let (target, request, payload) = requests.last();
        if holds(grants, process, messaging_capability(target)) {
            rest.push(
                ExitActionView::Send {
                    target,
                    request: RequestView { expects_response: None, ..request },
                    payload,
                },
            )
        } else {
            rest
        }
    }
}

/// What the kernel does when the process described by `metadata` has
/// ended, cleanly or by a crash: it is removed; then, by its policy,
/// nothing more, or it is set up and started again unless it had crashed,
/// or its last requests are sent.
pub open spec fn exit_actions(
    metadata: ProcessMetadataView,
    crashed: bool,
    grants: Seq<GrantView>,
) -> Seq<ExitActionView> {
    let process = metadata.our.process;
    seq![ExitActionView::Kill(process)] + match metadata.on_panic {
        OnPanicView::Nothing => Seq::empty(),
        OnPanicView::Restart => if crashed {
            Seq::empty()
        } else {
            seq![
                ExitActionView::Reboot {
                    process_id: process,
                    wasm_bytes_handle: metadata.wasm_bytes_handle,
                    on_panic: metadata.on_panic,
                    initial_capabilities: capabilities_of(held_by(grants, process)),
                },
                ExitActionView::Run(process),
            ]
        },
        OnPanicView::Requests(requests) => final_requests(grants, process, requests),
    }
}

/// See [`exit_actions`].
pub fn exit_plan(metadata: ProcessMetadata, crashed: bool, oracle: &CapabilityOracle) -> (res: Vec<
    ExitAction,
>)
    ensures
        res.deep_view() == exit_actions(metadata@, crashed, oracle@),
{
    proof {
        reveal_strlit("\"messaging\"");
    }
    let ghost process = metadata@.our.process;
    let mut out: Vec<ExitAction> = Vec::new();
    let kill = ExitAction::Kill(metadata.our.process.clone());
    out.push(kill);
    assert(out.deep_view() =~= seq![ExitActionView::Kill(process)]);
    match metadata.on_panic {
        OnPanic::Nothing => {
            assert(out.deep_view() =~= exit_actions(metadata@, crashed, oracle@));
        },
        OnPanic::Restart => {
            if !crashed {
                let held = oracle.get_all(&metadata.our.process);
                let reboot = ExitAction::Reboot {
                    process_id: metadata.our.process.clone(),
                    wasm_bytes_handle: metadata.wasm_bytes_handle,
                    on_panic: OnPanic::Restart,
                    initial_capabilities: strip_signatures(&held),
                };
                let run = ExitAction::Run(metadata.our.process.clone());
                let ghost one = out.deep_view();
                out.push(reboot);
                let ghost two = out.deep_view();
                assert(two =~= one.push(reboot@));
                out.push(run);
                assert(out.deep_view() =~= two.push(run@));
            }
            assert(out.deep_view() =~= exit_actions(metadata@, crashed, oracle@));
        },
        OnPanic::Requests(requests) => {
            let ghost all = requests.deep_view();
            let ghost head = seq![ExitActionView::Kill(process)];
            let mut i: usize = 0;
            assert(out.deep_view() =~= head + final_requests(oracle@, process, all.subrange(0, 0)));
            while i < requests.len()
                invariant
                    i <= requests.len(),
                    all == requests.deep_view(),
                    process == metadata.our.process@,
                    head == seq![ExitActionView::Kill(process)],
                    out.deep_view() == head + final_requests(
                        oracle@,
                        process,
                        all.subrange(0, i as int),
                    ),
                decreases requests.len() - i,
            {
                let item = &requests[i];
                assert(all[i as int] == item.deep_view());
                assert(all.subrange(0, i + 1).drop_last() =~= all.subrange(0, i as int));
                let wanted = Capability {
                    issuer: item.0.clone(),
                    params: "\"messaging\"".to_owned(),
                };
                if oracle.has(&metadata.our.process, &wanted) {
                    let send = ExitAction::Send {
                        target: item.0.clone(),
                        request: Request {
                            inherit: item.1.inherit,
                            expects_response: None,
                            body: clone_bytes(&item.1.body),
                            metadata: clone_option_string(&item.1.metadata),
                            capabilities: crate::types::clone_signed_capabilities(
                                &item.1.capabilities,
                            ),
                        },
                        payload: clone_option_payload(&item.2),
                    };
                    let ghost before = out.deep_view();
                    out.push(send);
                    assert(out.deep_view() =~= before.push(send@));
                    assert(out.deep_view() =~= head + final_requests(
                        oracle@,
                        process,
                        all.subrange(0, i + 1),
                    ));
                }
                i += 1;
            }
            assert(all.subrange(0, requests.len() as int) =~= all);
        },
    }
    out
}

/// The message that carries a last request of a process: from the process
/// itself, one way, with nobody owed a response.
pub fn one_way_message(
    id: u64,
    source: Address,
    target: Address,
    request: Request,
    payload: Option<Payload>,
) -> (res: KernelMessage)
    ensures
        res@ == (KernelMessageView {
            id,
            source: source@,
            target: target@,
            rsvp: None,
            message: MessageView::Request(request@),
            payload: payload.deep_view(),
        }),
{
    KernelMessage { id, source, target, rsvp: None, message: Message::Request(request), payload }
}

/// Even in death a process reaches only whom it may message: every request
/// that is sent for it goes to a target for which it holds the messaging
/// capability, and expects no response.
pub proof fn lemma_final_requests_authorized(
    grants: Seq<GrantView>,
    process: ProcessIdView,
    requests: Seq<(AddressView, RequestView, Option<PayloadView>)>,
    k: int,
)
    requires
        0 <= k < final_requests(grants, process, requests).len(),
    ensures
        final_requests(grants, process, requests)[k] matches ExitActionView::Send {
            target,
            request,
            payload,
        } && holds(grants, process, messaging_capability(target)) && request.expects_response
            is None,
    decreases requests.len(),
{
    if requests.len() > 0 {
        let rest = final_requests(grants, process, requests.drop_last());
        if k < rest.len() {
            lemma_final_requests_authorized(grants, process, requests.drop_last(), k);
        }
    }
}

/// A process that crashed is not started again.
pub proof fn lemma_no_restart_after_crash(metadata: ProcessMetadataView, grants: Seq<GrantView>)
    requires
        metadata.on_panic is Restart,
    ensures
        exit_actions(metadata, true, grants) == seq![ExitActionView::Kill(metadata.our.process)],
{
    assert(exit_actions(metadata, true, grants) =~= seq![
        ExitActionView::Kill(metadata.our.process),
    ]);
}

/// The position of the record of `process` in the table, if it has one.
pub open spec fn table_position(table: Seq<ProcessMetadataView>, process: ProcessIdView) -> Option<
    int,
>
    decreases table.len(),
{
    if table.len() == 0 {
        None
    } else if table[0].our.process == process {
        Some(0)
    } else {
        match table_position(table.drop_first(), process) {
            Some(i) => Some(i + 1),
            None => None,
        }
    }
}

/// If none of the first `i` records is that of `process`, the search may
/// start at record `i`.
pub proof fn lemma_table_position_skip(
    table: Seq<ProcessMetadataView>,
    process: ProcessIdView,
    i: int,
)
    requires
        0 <= i <= table.len(),
        forall|j: int| 0 <= j < i ==> (#[trigger] table[j]).our.process != process,
    ensures
        table_position(table, process) == match table_position(
            table.subrange(i, table.len() as int),
            process,
        ) {
            Some(k) => Some(k + i),
            None => None,
        },
    decreases i,
{
    if i == 0 {
        assert(table.subrange(0, table.len() as int) =~= table);
    } else {
        let tail = table.drop_first();
        assert forall|j: int| 0 <= j < i - 1 implies (#[trigger] tail[j]).our.process
            != process by {
            assert(tail[j] == table[j + 1]);
        }
        lemma_table_position_skip(tail, process, i - 1);
        assert(tail.subrange(i - 1, tail.len() as int) =~= table.subrange(i, table.len() as int));
        assert(table[0].our.process != process);
    }
}

/// The position that the search finds holds a record of the process, and
/// no earlier position does.
pub proof fn lemma_table_position_sound(table: Seq<ProcessMetadataView>, process: ProcessIdView)
    ensures
        match table_position(table, process) {
            Some(i) => 0 <= i < table.len() && table[i].our.process == process && forall|j: int|
                0 <= j < i ==> (#[trigger] table[j]).our.process != process,
            None => forall|j: int|
                0 <= j < table.len() ==> (#[trigger] table[j]).our.process != process,
        },
    decreases table.len(),
{
    if table.len() > 0 && table[0].our.process != process {
        let tail = table.drop_first();
        lemma_table_position_sound(tail, process);
        match table_position(tail, process) {
            Some(i) => {
                assert(tail[i] == table[i + 1]);
                assert forall|j: int| 0 <= j < i + 1 implies (#[trigger] table[j]).our.process
                    != process by {
                    if j > 0 {
                        assert(tail[j - 1] == table[j]);
                    }
                }
            },
            None => {
                assert forall|j: int| 0 <= j < table.len() implies (#[trigger] table[j]).our.process
                    != process by {
                    if j > 0 {
                        assert(tail[j - 1] == table[j]);
                    }
                }
            },
        }
    }
}

/// No process has two records.
pub open spec fn table_unique(table: Seq<ProcessMetadataView>) -> bool {
    forall|i: int, j: int|
        0 <= i < j < table.len() ==> (#[trigger] table[i]).our.process != (
        #[trigger] table[j]).our.process
}

/// The kernel's table of processes: for each process what is needed to
/// start it again.
#[derive(Debug, PartialEq, Eq)]
pub struct ProcessTable {
    entries: Vec<ProcessMetadata>,
}

impl View for ProcessTable {
    type V = Seq<ProcessMetadataView>;

    closed spec fn view(&self) -> Seq<ProcessMetadataView> {
        self.entries.deep_view()
    }
}

impl ProcessTable {
    /// The table's invariant: no process has two records.
    pub open spec fn wf(&self) -> bool {
        table_unique(self@)
    }

    /// A table without processes.
    pub fn new() -> (res: Self)
        ensures
            res@ == Seq::<ProcessMetadataView>::empty(),
            res.wf(),
    {
        let res = ProcessTable { entries: Vec::new() };
        assert(res@ =~= Seq::<ProcessMetadataView>::empty());
        res
    }

    /// Where the record of `process` stands.
    fn position(&self, process: &ProcessId) -> (res: Option<usize>)
        ensures
            match res {
                Some(i) => table_position(self@, process@) == Some(i as int) && i
                    < self.entries.len(),
                None => table_position(self@, process@) is None,
            },
    {
        let mut i: usize = 0;
        while i < self.entries.len()
            invariant
                i <= self.entries.len(),
                forall|j: int| 0 <= j < i ==> (#[trigger] self@[j]).our.process != process@,
            decreases self.entries.len() - i,
        {
            assert(self@[i as int] == self.entries@[i as int]@);
            if self.entries[i].our.process.same(process) {
                proof {
                    lemma_table_position_skip(self@, process@, i as int);
                    assert(self@.subrange(i as int, self@.len() as int)[0] == self@[i as int]);
                }
                return Some(i);
            }
            i += 1;
        }
        proof {
            lemma_table_position_skip(self@, process@, i as int);
            assert(self@.subrange(i as int, self@.len() as int).len() == 0);
        }
        None
    }

    /// Whether the process is in the table.
    pub fn contains(&self, process: &ProcessId) -> (res: bool)
        ensures
            res == table_position(self@, process@).is_some(),
    {
        self.position(process).is_some()
    }

    /// The record of the process, if it is in the table.
    pub fn get(&self, process: &ProcessId) -> (res: Option<&ProcessMetadata>)
        ensures
            res.deep_view() == match table_position(self@, process@) {
                Some(i) => Some(self@[i]),
                None => None,
            },
    {
        match self.position(process) {
            Some(i) => {
                assert(self@[i as int] == self.entries@[i as int]@);
                Some(&self.entries[i])
            },
            None => None,
        }
    }

    /// Enters a process. If it is in the table already, its record is
    /// replaced where it stands; else the record is added at the end.
    pub fn register(&mut self, metadata: ProcessMetadata)
        ensures
            final(self)@ == match table_position(old(self)@, metadata@.our.process) {
                Some(i) => old(self)@.update(i, metadata@),
                None => old(self)@.push(metadata@),
            },
            old(self).wf() ==> final(self).wf(),
    {
        let ghost before = self@;
        proof {
            lemma_table_position_sound(before, metadata@.our.process);
        }
        match self.position(&metadata.our.process) {
            Some(i) => {
                self.entries[i] = metadata;
                assert(self@ =~= before.update(i as int, metadata@));
            },
            None => {
                self.entries.push(metadata);
                assert(self@ =~= before.push(metadata@));
            },
        }
    }

    /// Takes a process out of the table and hands back its record. The
    /// other records keep their order.
    pub fn remove(&mut self, process: &ProcessId) -> (res: Option<ProcessMetadata>)
        ensures
            match table_position(old(self)@, process@) {
                Some(i) => final(self)@ == old(self)@.remove(i) && res.deep_view() == Some(
                    old(self)@[i],
                ),
                None => final(self)@ == old(self)@ && res is None,
            },
            old(self).wf() ==> final(self).wf(),
    {
        let ghost before = self@;
        match self.position(process) {
            Some(i) => {
                assert(before[i as int] == self.entries@[i as int]@);
                let removed = self.entries.remove(i);
                assert(self@ =~= before.remove(i as int));
                Some(removed)
            },
            None => None,
        }
    }
}

/// Why a message is not passed on.
#[derive(Debug, Clone, Copy, PartialEq, Eq, Structural)]
pub enum DropReason {
    /// A command for the kernel that does not come from this node.
    ForeignCommand,
    /// The process that the message is for is not in the table.
    UnknownProcess,
}

/// Where a message goes.
#[derive(Debug, Clone, Copy, PartialEq, Eq, Structural)]
pub enum Dispatch {
    /// To the transport, for another node.
    Remote,
    /// To the kernel itself, as a command.
    Kernel,
    /// To the inbox of the process that it names.
    Local,
    /// Nowhere.
    Dropped(DropReason),
}

/// Where the router of the node `our_node` sends `km`: to the transport if
/// it is for another node; to the kernel if it is for the kernel and comes
/// from this node; to the inbox of a process of the table; and nowhere
/// otherwise.
pub open spec fn dispatch(
    our_node: Seq<char>,
    table: Seq<ProcessMetadataView>,
    km: KernelMessageView,
) -> Dispatch {
    if km.target.node != our_node {
        Dispatch::Remote
    } else if km.target.process == kernel_process() {
        if km.source.node == our_node {
            Dispatch::Kernel
        } else {
            Dispatch::Dropped(DropReason::ForeignCommand)
        }
    } else if table_position(table, km.target.process).is_some() {
        Dispatch::Local
    } else {
        Dispatch::Dropped(DropReason::UnknownProcess)
    }
}

/// See [`dispatch`].
pub fn route(our_node: &String, table: &ProcessTable, km: &KernelMessage) -> (res: Dispatch)
    ensures
        res == dispatch(our_node@, table@, km@),
{
    if !(km.target.node == *our_node) {
        return Dispatch::Remote;
    }
    let kernel = kernel_process_id();
    if km.target.process.same(&kernel) {
        if km.source.node == *our_node {
            Dispatch::Kernel
        } else {
            Dispatch::Dropped(DropReason::ForeignCommand)
        }
    } else if table.contains(&km.target.process) {
        Dispatch::Local
    } else {
        Dispatch::Dropped(DropReason::UnknownProcess)
    }
}

/// A line for the terminal. Verbosity 0 is always shown, 1 only in verbose
/// mode; higher numbers are kept for later use.
#[derive(Debug, PartialEq, Eq)]
pub struct Printout {
    pub verbosity: u8,
    pub content: String,
}

/// A command for the kernel's debugger.
#[derive(Debug, Clone, Copy, PartialEq, Eq, Structural)]
pub enum DebugCommand {
    Toggle,
    Step,
}

/// A command for the kernel, carried as the body of a request to it.
#[derive(Debug, PartialEq, Eq)]
pub enum KernelCommand {
    StartProcess {
        name: Option<String>,
        wasm_bytes_handle: u128,
        on_panic: OnPanic,
        initial_capabilities: Vec<Capability>,
    },
    KillProcess(ProcessId),
    RebootProcess {
        process_id: ProcessId,
        wasm_bytes_handle: u128,
        on_panic: OnPanic,
        initial_capabilities: Vec<Capability>,
    },
    RunProcess(ProcessId),
    Shutdown,
    GrantCapability { to_process: ProcessId, params: String },
}

/// What the kernel answers to a command.
#[derive(Debug, PartialEq, Eq)]
pub enum KernelResponse {
    StartedProcess(ProcessMetadata),
    KilledProcess(ProcessId),
}

/// A request held back at boot, to be sent in order.
#[derive(Debug, PartialEq, Eq)]
pub enum SequentializeRequest {
    QueueMessage(QueueMessage),
    RunQueue,
}

/// A request held back at boot, with the process it is for.
#[derive(Debug, PartialEq, Eq)]
pub struct QueueMessage {
    pub target: ProcessId,
    pub request: Request,
}

/// A request that a module asks to be sent at boot.
#[derive(Debug, PartialEq, Eq)]
pub struct BootOutboundRequest {
    pub target_process: ProcessId,
    pub json: Option<String>,
    pub bytes: Option<Vec<u8>>,
}

impl ExitAction {
    /// The command that asks the kernel for this action. A request that is
    /// sent in the name of the process is no command.
    pub fn command(self) -> (res: Option<KernelCommand>)
        ensures
            match self {
                ExitAction::Kill(p) => res matches Some(KernelCommand::KillProcess(q)) && q@ == p@,
                ExitAction::Reboot {
                    process_id,
                    wasm_bytes_handle,
                    on_panic,
                    initial_capabilities,
                } => res matches Some(
                    KernelCommand::RebootProcess {
                        process_id: p,
                        wasm_bytes_handle: w,
                        on_panic: o,
                        initial_capabilities: c,
                    },
                ) && p@ == process_id@ && w == wasm_bytes_handle && o@ == on_panic@
                    && c.deep_view() == initial_capabilities.deep_view(),
                ExitAction::Run(p) => res matches Some(KernelCommand::RunProcess(q)) && q@ == p@,
                ExitAction::Send { .. } => res is None,
            },
    {
        match self {
            ExitAction::Kill(p) => Some(KernelCommand::KillProcess(p)),
            ExitAction::Reboot { process_id, wasm_bytes_handle, on_panic, initial_capabilities } =>
                Some(
                KernelCommand::RebootProcess {
                    process_id,
                    wasm_bytes_handle,
                    on_panic,
                    initial_capabilities,
                },
            ),
            ExitAction::Run(p) => Some(KernelCommand::RunProcess(p)),
            ExitAction::Send { .. } => None,
        }
    }
}

} // verus!
