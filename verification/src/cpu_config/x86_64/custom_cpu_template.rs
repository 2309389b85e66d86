//! Custom templates.

use vstd::prelude::*;

use crate::cpu_config::templates::{KvmCapability, RegisterValueFilter};
use crate::utils::text::same;

verus! {

/// A register that the CPU identification instruction answers in.
#[derive(Debug, Clone, Copy, PartialEq, Eq, Structural)]
pub enum CpuidRegister {
    /// `eax`.
    Eax,
    /// `ebx`.
    Ebx,
    /// `ecx`.
    Ecx,
    /// `edx`.
    Edx,
}

/// The name of a register.
pub open spec fn register_name(register: CpuidRegister) -> Seq<char> {
    match register {
        CpuidRegister::Eax => "eax"@,
        CpuidRegister::Ebx => "ebx"@,
        CpuidRegister::Ecx => "ecx"@,
        CpuidRegister::Edx => "edx"@,
    }
}

/// No two registers share a name.
proof fn lemma_names_differ()
    ensures
        "eax"@ != "ebx"@,
        "eax"@ != "ecx"@,
        "eax"@ != "edx"@,
        "ebx"@ != "ecx"@,
        "ebx"@ != "edx"@,
        "ecx"@ != "edx"@,
{
    reveal_strlit("eax");
    reveal_strlit("ebx");
    reveal_strlit("ecx");
    reveal_strlit("edx");
    assert("eax"@[1] == 'a');
    assert("ebx"@[1] == 'b');
    assert("ecx"@[1] == 'c');
    assert("edx"@[1] == 'd');
}

impl CpuidRegister {
    /// The register with a name, if there is one.
    pub fn from_name(name: &str) -> (r: Option<CpuidRegister>)
        ensures
            r matches Some(register) ==> register_name(register) == name@,
            r is None ==> forall|register: CpuidRegister| #[trigger]
                register_name(register) != name@,
    {
        if same(name, "eax") {
            Some(CpuidRegister::Eax)
        } else if same(name, "ebx") {
            Some(CpuidRegister::Ebx)
        } else if same(name, "ecx") {
            Some(CpuidRegister::Ecx)
        } else if same(name, "edx") {
            Some(CpuidRegister::Edx)
        } else {
            None
        }
    }

    /// The name of the register.
    pub fn name(&self) -> (r: &'static str)
        ensures
            r@ == register_name(*self),
    {
        match self {
            CpuidRegister::Eax => "eax",
            CpuidRegister::Ebx => "ebx",
            CpuidRegister::Ecx => "ecx",
            CpuidRegister::Edx => "edx",
        }
    }
}

/// A register is read back from its name.
pub proof fn law_names_are_unique(a: CpuidRegister, b: CpuidRegister)
    requires
        register_name(a) == register_name(b),
    ensures
        a == b,
{
    lemma_names_differ();
}

/// A change to a register of an answer.
#[derive(Debug, Clone, Copy, PartialEq, Eq, Structural)]
pub struct CpuidRegisterModifier {
    /// The register.
    pub register: CpuidRegister,
    /// The change.
    pub bitmap: RegisterValueFilter<u32>,
}

/// Changes to an answer of the CPU identification instruction.
#[derive(Debug)]
pub struct CpuidLeafModifier {
    /// Leaf.
    pub leaf: u32,
    /// Subleaf.
    pub subleaf: u32,
    /// Flags of the answer.
    pub flags: u32,
    /// Changes to its registers.
    pub modifiers: Vec<CpuidRegisterModifier>,
}

impl CpuidLeafModifier {
    /// Whether `self` and `other` are the same changes.
    pub open spec fn same_as(self, other: CpuidLeafModifier) -> bool {
        &&& self.leaf == other.leaf
        &&& self.subleaf == other.subleaf
        &&& self.flags == other.flags
        &&& self.modifiers@ == other.modifiers@
    }

    /// A copy.
    pub fn copied(&self) -> (r: CpuidLeafModifier)
        ensures
            r.same_as(*self),
    {
        let modifiers = self.modifiers.clone();
        assert(modifiers@ =~= self.modifiers@);
        CpuidLeafModifier {
            leaf: self.leaf,
            subleaf: self.subleaf,
            flags: self.flags,
            modifiers,
        }
    }
}

/// A change to a model specific register.
#[derive(Debug, Clone, Copy, PartialEq, Eq, Structural)]
pub struct RegisterModifier {
    /// Address of the register.
    pub addr: u32,
    /// The change.
    pub bitmap: RegisterValueFilter<u64>,
}

/// Changes to a virtual CPU.
#[derive(Debug)]
pub struct CustomCpuTemplate {
    /// Changes to the capabilities that the hypervisor must have.
    pub kvm_capabilities: Vec<KvmCapability>,
    /// Changes to answers of the CPU identification instruction.
    pub cpuid_modifiers: Vec<CpuidLeafModifier>,
    /// Changes to model specific registers.
    pub msr_modifiers: Vec<RegisterModifier>,
}

impl Default for CustomCpuTemplate {
    fn default() -> (r: CustomCpuTemplate)
        ensures
            r.kvm_capabilities@.len() == 0,
            r.cpuid_modifiers@.len() == 0,
            r.msr_modifiers@.len() == 0,
    {
        CustomCpuTemplate {
            kvm_capabilities: Vec::new(),
            cpuid_modifiers: Vec::new(),
            msr_modifiers: Vec::new(),
        }
    }
}

impl CustomCpuTemplate {
    /// Whether `self` and `other` are the same changes.
    pub open spec fn same_as(self, other: CustomCpuTemplate) -> bool {
        &&& self.kvm_capabilities@ == other.kvm_capabilities@
        &&& self.cpuid_modifiers@.len() == other.cpuid_modifiers@.len()
        &&& forall|i: int|
            0 <= i < self.cpuid_modifiers@.len() ==> (#[trigger] self.cpuid_modifiers@[i]).same_as(
                other.cpuid_modifiers@[i],
            )
        &&& self.msr_modifiers@ == other.msr_modifiers@
    }

    /// A copy.
    pub fn copied(&self) -> (r: CustomCpuTemplate)
        ensures
            r.same_as(*self),
    {
        let mut cpuid_modifiers: Vec<CpuidLeafModifier> = Vec::new();
        let mut i: usize = 0;
        while i < self.cpuid_modifiers.len()
            invariant
                i <= self.cpuid_modifiers@.len(),
                cpuid_modifiers@.len() == i,
                forall|j: int|
                    0 <= j < i ==> (#[trigger] cpuid_modifiers@[j]).same_as(
                        self.cpuid_modifiers@[j],
                    ),
            decreases self.cpuid_modifiers@.len() - i,
        {
            cpuid_modifiers.push(self.cpuid_modifiers[i].copied());
            i += 1;
        }
        let kvm_capabilities = self.kvm_capabilities.clone();
        let msr_modifiers = self.msr_modifiers.clone();
        assert(kvm_capabilities@ =~= self.kvm_capabilities@);
        assert(msr_modifiers@ =~= self.msr_modifiers@);
        CustomCpuTemplate { kvm_capabilities, cpuid_modifiers, msr_modifiers }
    }

    /// The addresses of the model specific registers that change.
    pub fn msr_index_iter(&self) -> (r: Vec<u32>)
        ensures
            r@ == Seq::new(self.msr_modifiers@.len(), |i: int| self.msr_modifiers@[i].addr),
    {
        let mut indices: Vec<u32> = Vec::new();
        let mut i: usize = 0;
        while i < self.msr_modifiers.len()
            invariant
                i <= self.msr_modifiers@.len(),
                indices@.len() == i,
                forall|j: int|
                    0 <= j < i ==> indices@[j] == (#[trigger] self.msr_modifiers@[j]).addr,
            decreases self.msr_modifiers@.len() - i,
        {
            indices.push(self.msr_modifiers[i].addr);
            i += 1;
        }
        indices
    }

    /// Whether the template makes sense. Every template does.
    pub fn validate(&self) -> (r: Result<(), ()>)
        ensures
            r is Ok,
    {
        Ok(())
    }
}

} // verus!
