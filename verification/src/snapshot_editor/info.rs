//! What is printed about a snapshot.

use vstd::prelude::*;

use crate::utils::text::{decimal, decimal_string, hex_string, hexadecimal};

verus! {

/// Why nothing can be printed.
#[derive(Debug)]
pub enum InfoVmStateError {
    /// The snapshot cannot be read.
    Utils(UtilsError),
}

/// Why a snapshot cannot be read.
#[derive(Debug)]
pub enum UtilsError {
    /// The file cannot be opened.
    VmStateFileOpen(String),
    /// The file cannot be read.
    VmStateLoad(String),
}

/// What is asked about a snapshot.
#[derive(Debug)]
pub enum InfoVmStateSubCommand {
    /// Its version.
    Version {
        /// Path of the snapshot.
        vmstate_path: String,
    },
    /// The states of the CPUs.
    VcpuStates {
        /// Path of the snapshot.
        vmstate_path: String,
    },
    /// The model specific registers of the CPUs.
    MsrState {
        /// Path of the snapshot.
        vmstate_path: String,
    },
    /// Everything.
    VmState {
        /// Path of the snapshot.
        vmstate_path: String,
    },
}

/// A model specific register.
#[derive(Debug, Clone, Copy, PartialEq, Eq, Structural)]
pub struct MsrEntry {
    /// Address.
    pub index: u32,
    /// Value.
    pub data: u64,
}

/// What a snapshot holds of a CPU.
#[derive(Debug)]
pub struct VcpuInfo {
    /// Its state, in full.
    pub text: String,
    /// Its model specific registers, in chunks.
    pub saved_msrs: Vec<Vec<MsrEntry>>,
}

/// What a snapshot holds.
#[derive(Debug)]
pub struct SnapshotInfo {
    /// Its version.
    pub version: String,
    /// Its CPUs.
    pub vcpu_states: Vec<VcpuInfo>,
    /// All of it, in full.
    pub text: String,
}

/// What is asked, apart from the path.
#[derive(Debug, Clone, Copy, PartialEq, Eq, Structural)]
pub enum InfoKind {
    /// The version.
    Version,
    /// The states of the CPUs.
    VcpuStates,
    /// The model specific registers of the CPUs.
    MsrState,
    /// Everything.
    VmState,
}

/// What a command asks.
pub open spec fn kind_of(command: InfoVmStateSubCommand) -> InfoKind {
    match command {
        InfoVmStateSubCommand::Version { .. } => InfoKind::Version,
        InfoVmStateSubCommand::VcpuStates { .. } => InfoKind::VcpuStates,
        InfoVmStateSubCommand::MsrState { .. } => InfoKind::MsrState,
        InfoVmStateSubCommand::VmState { .. } => InfoKind::VmState,
    }
}

/// The lines about a register.
pub open spec fn entry_lines(k: int, e: MsrEntry) -> Seq<char> {
    "    entry "@ + decimal(k as nat) + ":\n      index: 0x"@ + hexadecimal(e.index as nat)
        + "\n      data:  0x"@ + hexadecimal(e.data as nat) + "\n"@
}

/// The lines about registers.
pub open spec fn entries_lines(entries: Seq<MsrEntry>) -> Seq<char>
    decreases entries.len(),
{
    if entries.len() == 0 {
        seq![]
    } else {
        entries_lines(entries.drop_last()) + entry_lines(entries.len() - 1, entries.last())
    }
}

/// The lines about chunks of registers.
pub open spec fn chunks_lines(chunks: Seq<Vec<MsrEntry>>) -> Seq<char>
    decreases chunks.len(),
{
    if chunks.len() == 0 {
        seq![]
    } else {
        let k = chunks.len() - 1;
        chunks_lines(chunks.drop_last()) + "  chunk "@ + decimal(k as nat) + ":\n    count: "@
            + decimal(chunks.last()@.len()) + "\n"@ + entries_lines(chunks.last()@)
    }
}

/// The lines about the registers of CPUs.
pub open spec fn msr_lines(states: Seq<VcpuInfo>) -> Seq<char>
    decreases states.len(),
{
    if states.len() == 0 {
        seq![]
    } else {
        let k = states.len() - 1;
        msr_lines(states.drop_last()) + "vcpu "@ + decimal(k as nat) + ":\nsaved_msrs:\n"@
            + chunks_lines(states.last().saved_msrs@) + "\n"@
    }
}

/// The lines about the states of CPUs.
pub open spec fn vcpu_lines(states: Seq<VcpuInfo>) -> Seq<char>
    decreases states.len(),
{
    if states.len() == 0 {
        seq![]
    } else {
        let k = states.len() - 1;
        vcpu_lines(states.drop_last()) + "vcpu "@ + decimal(k as nat) + ":\n"@
            + states.last().text@ + "\n"@
    }
}

/// What is printed.
pub open spec fn printed(kind: InfoKind, snapshot: SnapshotInfo) -> Seq<char> {
    match kind {
        InfoKind::Version => "v"@ + snapshot.version@ + "\n"@,
        InfoKind::VcpuStates => vcpu_lines(snapshot.vcpu_states@),
        InfoKind::MsrState => msr_lines(snapshot.vcpu_states@),
        InfoKind::VmState => snapshot.text@ + "\n"@,
    }
}

/// What a command prints about a snapshot that was opened.
pub fn info_vmstate_command(
    command: &InfoVmStateSubCommand,
    opened: Result<SnapshotInfo, UtilsError>,
) -> (r: Result<String, InfoVmStateError>)
    ensures
        match opened {
            Ok(snapshot) => r is Ok && r->Ok_0@ == printed(kind_of(*command), snapshot),
            Err(e) => r is Err && r->Err_0 == InfoVmStateError::Utils(e),
        },
{
    match command {
        InfoVmStateSubCommand::Version { .. } => info(opened, InfoKind::Version),
        InfoVmStateSubCommand::VcpuStates { .. } => info(opened, InfoKind::VcpuStates),
        InfoVmStateSubCommand::MsrState { .. } => info(opened, InfoKind::MsrState),
        InfoVmStateSubCommand::VmState { .. } => info(opened, InfoKind::VmState),
    }
}

/// What is printed about a snapshot that was opened.
pub fn info(opened: Result<SnapshotInfo, UtilsError>, kind: InfoKind) -> (r: Result<
    String,
    InfoVmStateError,
>)
    ensures
        match opened {
            Ok(snapshot) => r is Ok && r->Ok_0@ == printed(kind, snapshot),
            Err(e) => r is Err && r->Err_0 == InfoVmStateError::Utils(e),
        },
{
    let snapshot = match opened {
        Ok(snapshot) => snapshot,
        Err(e) => {
            return Err(InfoVmStateError::Utils(e));
        },
    };
    let mut out = String::new();
    assert(out@ =~= Seq::<char>::empty());
    match kind {
        InfoKind::Version => {
            out.append("v");
            out.append(snapshot.version.as_str());
            out.append("\n");
            assert(out@ =~= "v"@ + snapshot.version@ + "\n"@);
        },
        InfoKind::VcpuStates => {
            out = info_vcpu_states(&snapshot);
        },
        InfoKind::MsrState => {
            out = msr_state(&snapshot);
        },
        InfoKind::VmState => {
            out.append(snapshot.text.as_str());
            out.append("\n");
            assert(out@ =~= snapshot.text@ + "\n"@);
        },
    }
    Ok(out)
}

/// The lines about the states of CPUs.
fn info_vcpu_states(snapshot: &SnapshotInfo) -> (r: String)
    ensures
        r@ == vcpu_lines(snapshot.vcpu_states@),
{
    let ghost states = snapshot.vcpu_states@;
    let mut out = String::new();
    let mut i: usize = 0;
    assert(states.take(0) =~= Seq::<VcpuInfo>::empty());
    assert(out@ =~= vcpu_lines(states.take(0)));
    while i < snapshot.vcpu_states.len()
        invariant
            states == snapshot.vcpu_states@,
            i <= states.len(),
            out@ == vcpu_lines(states.take(i as int)),
        decreases states.len() - i,
    {
        assert(states.take(i + 1).drop_last() =~= states.take(i as int));
        out.append("vcpu ");
        out.append(decimal_string(i as u64).as_str());
        out.append(":\n");
        out.append(snapshot.vcpu_states[i].text.as_str());
        out.append("\n");
        i += 1;
    }
    assert(states.take(i as int) =~= states);
    out
}

/// The lines about the registers of a chunk.
fn describe_entries(entries: &Vec<MsrEntry>) -> (r: String)
    ensures
        r@ == entries_lines(entries@),
{
    let mut out = String::new();
    let mut i: usize = 0;
    assert(entries@.take(0) =~= Seq::<MsrEntry>::empty());
    assert(out@ =~= entries_lines(entries@.take(0)));
    while i < entries.len()
        invariant
            i <= entries@.len(),
            out@ == entries_lines(entries@.take(i as int)),
        decreases entries@.len() - i,
    {
        let ghost before = out@;
        assert(entries@.take(i + 1).drop_last() =~= entries@.take(i as int));
        out.append("    entry ");
        out.append(decimal_string(i as u64).as_str());
        out.append(":\n      index: 0x");
        out.append(hex_string(entries[i].index as u64).as_str());
        out.append("\n      data:  0x");
        out.append(hex_string(entries[i].data).as_str());
        out.append("\n");
        assert(out@ =~= before + entry_lines(i as int, entries@[i as int]));
        i += 1;
    }
    assert(entries@.take(i as int) =~= entries@);
    out
}

/// The lines about the registers of a CPU.
fn describe_chunks(chunks: &Vec<Vec<MsrEntry>>) -> (r: String)
    ensures
        r@ == chunks_lines(chunks@),
{
    let mut out = String::new();
    let mut i: usize = 0;
    assert(chunks@.take(0) =~= Seq::<Vec<MsrEntry>>::empty());
    assert(out@ =~= chunks_lines(chunks@.take(0)));
    while i < chunks.len()
        invariant
            i <= chunks@.len(),
            out@ == chunks_lines(chunks@.take(i as int)),
        decreases chunks@.len() - i,
    {
        assert(chunks@.take(i + 1).drop_last() =~= chunks@.take(i as int));
        out.append("  chunk ");
        out.append(decimal_string(i as u64).as_str());
        out.append(":\n    count: ");
        out.append(decimal_string(chunks[i].len() as u64).as_str());
        out.append("\n");
        out.append(describe_entries(&chunks[i]).as_str());
        i += 1;
    }
    assert(chunks@.take(i as int) =~= chunks@);
    out
}

/// The lines about the registers of CPUs.
fn msr_state(snapshot: &SnapshotInfo) -> (r: String)
    ensures
        r@ == msr_lines(snapshot.vcpu_states@),
{
    let ghost states = snapshot.vcpu_states@;
    let mut out = String::new();
    let mut i: usize = 0;
    assert(states.take(0) =~= Seq::<VcpuInfo>::empty());
    assert(out@ =~= msr_lines(states.take(0)));
    while i < snapshot.vcpu_states.len()
        invariant
            states == snapshot.vcpu_states@,
            i <= states.len(),
            out@ == msr_lines(states.take(i as int)),
        decreases states.len() - i,
    {
        assert(states.take(i + 1).drop_last() =~= states.take(i as int));
        out.append("vcpu ");
        out.append(decimal_string(i as u64).as_str());
        out.append(":\nsaved_msrs:\n");
        out.append(describe_chunks(&snapshot.vcpu_states[i].saved_msrs).as_str());
        out.append("\n");
        i += 1;
    }
    assert(states.take(i as int) =~= states);
    out
}

/// What is printed of a snapshot: its version behind a "v", the states of its vCPUs one by one, their
/// registers, or all of it.
pub proof fn law_what_is_printed(snapshot: SnapshotInfo, path: String)
    ensures
        printed(kind_of(InfoVmStateSubCommand::Version { vmstate_path: path }), snapshot) == "v"@
            + snapshot.version@ + "\n"@,
        printed(kind_of(InfoVmStateSubCommand::VmState { vmstate_path: path }), snapshot)
            == snapshot.text@ + "\n"@,
        printed(kind_of(InfoVmStateSubCommand::VcpuStates { vmstate_path: path }), snapshot)
            == vcpu_lines(snapshot.vcpu_states@),
        printed(kind_of(InfoVmStateSubCommand::MsrState { vmstate_path: path }), snapshot)
            == msr_lines(snapshot.vcpu_states@),
{
}

/// Every vCPU is printed behind those before it, under its number.
pub proof fn law_vcpus_are_printed_in_order(states: Seq<VcpuInfo>, next: VcpuInfo)
    ensures
        vcpu_lines(states.push(next)) == vcpu_lines(states) + "vcpu "@ + decimal(states.len())
            + ":\n"@ + next.text@ + "\n"@,
        msr_lines(states.push(next)) == msr_lines(states) + "vcpu "@ + decimal(states.len())
            + ":\nsaved_msrs:\n"@ + chunks_lines(next.saved_msrs@) + "\n"@,
        vcpu_lines(Seq::empty()).len() == 0,
        msr_lines(Seq::empty()).len() == 0,
{
    assert(states.push(next).drop_last() =~= states);
}

/// Every register is printed behind those before it, with its number and its value in hexadecimal
/// notation.
pub proof fn law_registers_are_printed_in_order(entries: Seq<MsrEntry>, next: MsrEntry)
    ensures
        entries_lines(entries.push(next)) == entries_lines(entries) + ("    entry "@ + decimal(
            entries.len(),
        ) + ":\n      index: 0x"@ + hexadecimal(next.index as nat) + "\n      data:  0x"@
            + hexadecimal(next.data as nat) + "\n"@),
        entries_lines(Seq::empty()).len() == 0,
{
    assert(entries.push(next).drop_last() =~= entries);
}

} // verus!
