//! The configuration of a virtual CPU and what templates make of it.

use std::collections::BTreeMap;
use vstd::prelude::*;

use crate::cpu_config::templates::{applied32, applied64};
use crate::cpu_config::x86_64::custom_cpu_template::{
    CpuidLeafModifier, CpuidRegister, CpuidRegisterModifier, CustomCpuTemplate, RegisterModifier,
};

verus! {

broadcast use vstd::std_specs::btree::group_btree_axioms;

/// Why a template cannot be applied.
#[derive(Debug, Clone, Copy, PartialEq, Eq, Structural)]
pub enum CpuConfigurationError {
    /// The template changes an answer that is not there: leaf and subleaf.
    CpuidFeatureNotSupported(u32, u32),
    /// The template changes a model specific register that is not there.
    MsrNotSupported(u32),
}

/// An answer of the CPU identification instruction.
#[derive(Debug, Clone, Copy, PartialEq, Eq, Structural)]
pub struct CpuidEntry {
    /// Flags.
    pub flags: u32,
    /// Register `eax`.
    pub eax: u32,
    /// Register `ebx`.
    pub ebx: u32,
    /// Register `ecx`.
    pub ecx: u32,
    /// Register `edx`.
    pub edx: u32,
}

/// The key of an answer.
pub open spec fn key_of(leaf: u32, subleaf: u32) -> u64 {
    (leaf * 0x1_0000_0000 + subleaf) as u64
}

/// The key of an answer.
pub fn cpuid_key(leaf: u32, subleaf: u32) -> (r: u64)
    ensures
        r == key_of(leaf, subleaf),
{
    leaf as u64 * 0x1_0000_0000 + subleaf as u64
}

/// Different leaves and subleaves have different keys.
pub proof fn law_keys_are_unique(a: (u32, u32), b: (u32, u32))
    requires
        key_of(a.0, a.1) == key_of(b.0, b.1),
    ensures
        a == b,
{
}

/// An answer after a change to one register.
pub open spec fn register_changed(e: CpuidEntry, m: CpuidRegisterModifier) -> CpuidEntry {
    match m.register {
        CpuidRegister::Eax => CpuidEntry { eax: applied32(m.bitmap, e.eax), ..e },
        CpuidRegister::Ebx => CpuidEntry { ebx: applied32(m.bitmap, e.ebx), ..e },
        CpuidRegister::Ecx => CpuidEntry { ecx: applied32(m.bitmap, e.ecx), ..e },
        CpuidRegister::Edx => CpuidEntry { edx: applied32(m.bitmap, e.edx), ..e },
    }
}

/// An answer after changes to registers, one after the other.
pub open spec fn registers_changed(e: CpuidEntry, m: Seq<CpuidRegisterModifier>) -> CpuidEntry
    decreases m.len(),
{
    if m.len() == 0 {
        e
    } else {
        register_changed(registers_changed(e, m.drop_last()), m.last())
    }
}

/// An answer after the changes of a template.
pub open spec fn leaf_changed(e: CpuidEntry, m: CpuidLeafModifier) -> CpuidEntry {
    registers_changed(CpuidEntry { flags: m.flags, ..e }, m.modifiers@)
}

/// The answers after changes, one after the other, or the first change that cannot be made.
pub open spec fn cpuid_changed(cpuid: Map<u64, CpuidEntry>, m: Seq<CpuidLeafModifier>) -> Result<
    Map<u64, CpuidEntry>,
    CpuConfigurationError,
>
    decreases m.len(),
{
    if m.len() == 0 {
        Ok(cpuid)
    } else {
        match cpuid_changed(cpuid, m.drop_last()) {
            Err(e) => Err(e),
            Ok(before) => {
                let last = m.last();
                let key = key_of(last.leaf, last.subleaf);
                if before.contains_key(key) {
                    Ok(before.insert(key, leaf_changed(before[key], last)))
                } else {
                    Err(CpuConfigurationError::CpuidFeatureNotSupported(last.leaf, last.subleaf))
                }
            },
        }
    }
}

/// The model specific registers after changes, one after the other, or the first change that
/// cannot be made.
pub open spec fn msrs_changed(msrs: Map<u32, u64>, m: Seq<RegisterModifier>) -> Result<
    Map<u32, u64>,
    CpuConfigurationError,
>
    decreases m.len(),
{
    if m.len() == 0 {
        Ok(msrs)
    } else {
        match msrs_changed(msrs, m.drop_last()) {
            Err(e) => Err(e),
            Ok(before) => {
                let last = m.last();
                if before.contains_key(last.addr) {
                    Ok(before.insert(last.addr, applied64(last.bitmap, before[last.addr])))
                } else {
                    Err(CpuConfigurationError::MsrNotSupported(last.addr))
                }
            },
        }
    }
}

/// The first change that cannot be made to answers ends the changes.
proof fn lemma_cpuid_stops(cpuid: Map<u64, CpuidEntry>, m: Seq<CpuidLeafModifier>, k: int)
    requires
        0 <= k <= m.len(),
        cpuid_changed(cpuid, m.take(k)) is Err,
    ensures
        cpuid_changed(cpuid, m) == cpuid_changed(cpuid, m.take(k)),
    decreases m.len(),
{
    if k < m.len() {
        assert(m.drop_last().take(k) =~= m.take(k));
        lemma_cpuid_stops(cpuid, m.drop_last(), k);
    } else {
        assert(m.take(k) =~= m);
    }
}

/// The first change that cannot be made to model specific registers ends the changes.
proof fn lemma_msrs_stop(msrs: Map<u32, u64>, m: Seq<RegisterModifier>, k: int)
    requires
        0 <= k <= m.len(),
        msrs_changed(msrs, m.take(k)) is Err,
    ensures
        msrs_changed(msrs, m) == msrs_changed(msrs, m.take(k)),
    decreases m.len(),
{
    if k < m.len() {
        assert(m.drop_last().take(k) =~= m.take(k));
        lemma_msrs_stop(msrs, m.drop_last(), k);
    } else {
        assert(m.take(k) =~= m);
    }
}

/// The configuration of a virtual CPU.
#[derive(Debug)]
pub struct CpuConfiguration {
    /// Answers of the CPU identification instruction.
    pub cpuid: BTreeMap<u64, CpuidEntry>,
    /// Values of model specific registers by address.
    pub msrs: BTreeMap<u32, u64>,
}

/// Changes registers of an answer.
fn change_registers(entry: CpuidEntry, modifiers: &Vec<CpuidRegisterModifier>) -> (r: CpuidEntry)
    ensures
        r == registers_changed(entry, modifiers@),
{
    let mut changed = entry;
    let mut i: usize = 0;
    assert(modifiers@.take(0) =~= Seq::<CpuidRegisterModifier>::empty());
    while i < modifiers.len()
        invariant
            i <= modifiers@.len(),
            changed == registers_changed(entry, modifiers@.take(i as int)),
        decreases modifiers@.len() - i,
    {
        let m = &modifiers[i];
        assert(modifiers@.take(i + 1).drop_last() =~= modifiers@.take(i as int));
        match m.register {
            CpuidRegister::Eax => {
                changed.eax = m.bitmap.apply(changed.eax);
            },
            CpuidRegister::Ebx => {
                changed.ebx = m.bitmap.apply(changed.ebx);
            },
            CpuidRegister::Ecx => {
                changed.ecx = m.bitmap.apply(changed.ecx);
            },
            CpuidRegister::Edx => {
                changed.edx = m.bitmap.apply(changed.edx);
            },
        }
        i += 1;
    }
    assert(modifiers@.take(i as int) =~= modifiers@);
    changed
}

impl CpuConfiguration {
    /// The configuration that a template makes of this one.
    pub fn apply_template(self, template: &CustomCpuTemplate) -> (r: Result<
        CpuConfiguration,
        CpuConfigurationError,
    >)
        ensures
            match cpuid_changed(self.cpuid@, template.cpuid_modifiers@) {
                Err(e) => r is Err && r->Err_0 == e,
                Ok(cpuid) => match msrs_changed(self.msrs@, template.msr_modifiers@) {
                    Err(e) => r is Err && r->Err_0 == e,
                    Ok(msrs) => r is Ok && r->Ok_0.cpuid@ == cpuid && r->Ok_0.msrs@ == msrs,
                },
            },
    {
        let mut cpuid = self.cpuid;
        let mut msrs = self.msrs;
        let ghost leaves = template.cpuid_modifiers@;
        let ghost registers = template.msr_modifiers@;
        let mut i: usize = 0;
        assert(leaves.take(0) =~= Seq::<CpuidLeafModifier>::empty());
        while i < template.cpuid_modifiers.len()
            invariant
                leaves == template.cpuid_modifiers@,
                i <= leaves.len(),
                cpuid_changed(self.cpuid@, leaves.take(i as int)) == Ok::<
                    Map<u64, CpuidEntry>,
                    CpuConfigurationError,
                >(cpuid@),
            decreases leaves.len() - i,
        {
            let leaf = &template.cpuid_modifiers[i];
            let key: u64 = cpuid_key(leaf.leaf, leaf.subleaf);
            assert(leaves.take(i + 1).drop_last() =~= leaves.take(i as int));
            match cpuid.get(&key) {
                None => {
                    proof {
                        lemma_cpuid_stops(self.cpuid@, leaves, i + 1);
                    }
                    return Err(
                        CpuConfigurationError::CpuidFeatureNotSupported(leaf.leaf, leaf.subleaf),
                    );
                },
                Some(entry) => {
                    let mut changed = *entry;
                    changed.flags = leaf.flags;
                    let changed = change_registers(changed, &leaf.modifiers);
                    cpuid.insert(key, changed);
                },
            }
            i += 1;
        }
        assert(leaves.take(i as int) =~= leaves);
        let mut j: usize = 0;
        assert(registers.take(0) =~= Seq::<RegisterModifier>::empty());
        while j < template.msr_modifiers.len()
            invariant
                registers == template.msr_modifiers@,
                j <= registers.len(),
                cpuid_changed(self.cpuid@, template.cpuid_modifiers@) == Ok::<
                    Map<u64, CpuidEntry>,
                    CpuConfigurationError,
                >(cpuid@),
                msrs_changed(self.msrs@, registers.take(j as int)) == Ok::<
                    Map<u32, u64>,
                    CpuConfigurationError,
                >(msrs@),
            decreases registers.len() - j,
        {
            let modifier = template.msr_modifiers[j];
            assert(registers.take(j + 1).drop_last() =~= registers.take(j as int));
            match msrs.get(&modifier.addr) {
                None => {
                    proof {
                        lemma_msrs_stop(self.msrs@, registers, j + 1);
                    }
                    return Err(CpuConfigurationError::MsrNotSupported(modifier.addr));
                },
                Some(value) => {
                    let changed: u64 = modifier.bitmap.apply(*value);
                    msrs.insert(modifier.addr, changed);
                },
            }
            j += 1;
        }
        assert(registers.take(j as int) =~= registers);
        Ok(CpuConfiguration { cpuid, msrs })
    }
}

/// A template neither adds nor removes answers of the CPU identification instruction.
pub proof fn law_answers_stay(cpuid: Map<u64, CpuidEntry>, m: Seq<CpuidLeafModifier>)
    requires
        cpuid_changed(cpuid, m) is Ok,
    ensures
        cpuid_changed(cpuid, m)->Ok_0.dom() == cpuid.dom(),
        forall|i: int|
            0 <= i < m.len() ==> cpuid.contains_key(
                key_of((#[trigger] m[i]).leaf, m[i].subleaf),
            ),
    decreases m.len(),
{
    if m.len() > 0 {
        law_answers_stay(cpuid, m.drop_last());
        let before = cpuid_changed(cpuid, m.drop_last())->Ok_0;
        assert(cpuid_changed(cpuid, m)->Ok_0.dom() =~= before.dom());
        assert forall|i: int| 0 <= i < m.len() implies cpuid.contains_key(
            key_of((#[trigger] m[i]).leaf, m[i].subleaf),
        ) by {
            if i < m.len() - 1 {
                assert(m.drop_last()[i] == m[i]);
            } else {
                assert(before.dom().contains(key_of(m[i].leaf, m[i].subleaf)));
            }
        }
    }
}

/// A template neither adds nor removes model specific registers, and changes only those it names.
pub proof fn law_registers_stay(msrs: Map<u32, u64>, m: Seq<RegisterModifier>, addr: u32)
    requires
        msrs_changed(msrs, m) is Ok,
    ensures
        msrs_changed(msrs, m)->Ok_0.dom() == msrs.dom(),
        (forall|i: int| 0 <= i < m.len() ==> (#[trigger] m[i]).addr != addr) ==> msrs_changed(
            msrs,
            m,
        )->Ok_0[addr] == msrs[addr],
    decreases m.len(),
{
    if m.len() > 0 {
        law_registers_stay(msrs, m.drop_last(), addr);
        let before = msrs_changed(msrs, m.drop_last())->Ok_0;
        assert(msrs_changed(msrs, m)->Ok_0.dom() =~= before.dom());
        if forall|i: int| 0 <= i < m.len() ==> (#[trigger] m[i]).addr != addr {
            assert(forall|i: int|
                0 <= i < m.drop_last().len() ==> m.drop_last()[i] == #[trigger] m[i]);
        }
    }
}

/// A change to a model specific register that no later change touches is there afterwards.
pub proof fn law_last_change_counts(msrs: Map<u32, u64>, m: Seq<RegisterModifier>, i: int)
    requires
        0 <= i < m.len(),
        msrs_changed(msrs, m) is Ok,
        forall|j: int| i < j < m.len() ==> (#[trigger] m[j]).addr != m[i].addr,
    ensures
        msrs_changed(msrs, m)->Ok_0[m[i].addr] & m[i].bitmap.filter == m[i].bitmap.value
            & m[i].bitmap.filter,
    decreases m.len(),
{
    let before = msrs_changed(msrs, m.drop_last())->Ok_0;
    if i == m.len() - 1 {
        crate::cpu_config::templates::law_filter_sets_its_bits(
            m.last().bitmap,
            before[m.last().addr],
        );
    } else {
        law_last_change_counts(msrs, m.drop_last(), i);
    }
}

/// The value of a register of an answer.
pub open spec fn register_value(e: CpuidEntry, register: CpuidRegister) -> u32 {
    match register {
        CpuidRegister::Eax => e.eax,
        CpuidRegister::Ebx => e.ebx,
        CpuidRegister::Ecx => e.ecx,
        CpuidRegister::Edx => e.edx,
    }
}

/// A change of a register changes that register, and none of the others.
pub proof fn law_one_register_changes(
    e: CpuidEntry,
    m: CpuidRegisterModifier,
    register: CpuidRegister,
)
    ensures
        register_value(register_changed(e, m), register) == (if register == m.register {
            (register_value(e, register) & !m.bitmap.filter) | m.bitmap.value
        } else {
            register_value(e, register)
        }),
        register_changed(e, m).flags == e.flags,
{
}

proof fn lemma_flags_stay(e: CpuidEntry, m: Seq<CpuidRegisterModifier>)
    ensures
        registers_changed(e, m).flags == e.flags,
    decreases m.len(),
{
    if m.len() > 0 {
        lemma_flags_stay(e, m.drop_last());
    }
}

/// A register that no change is about keeps its value.
pub proof fn law_other_registers_stay(
    e: CpuidEntry,
    m: Seq<CpuidRegisterModifier>,
    register: CpuidRegister,
)
    requires
        forall|i: int| 0 <= i < m.len() ==> (#[trigger] m[i]).register != register,
    ensures
        register_value(registers_changed(e, m), register) == register_value(e, register),
        registers_changed(e, m).flags == e.flags,
    decreases m.len(),
{
    if m.len() > 0 {
        assert(m[m.len() - 1].register != register);
        assert forall|i: int| 0 <= i < m.drop_last().len() implies (
        #[trigger] m.drop_last()[i]).register != register by {
            assert(m[i].register != register);
        }
        law_other_registers_stay(e, m.drop_last(), register);
    }
}

/// A template can be applied to the answers exactly when there is an answer for each leaf that it
/// changes. Answers for other leaves stay as they are, and an answer has the flags of the last
/// change of its leaf.
pub proof fn law_changes_reach_their_leaf(
    cpuid: Map<u64, CpuidEntry>,
    m: Seq<CpuidLeafModifier>,
    leaf: u32,
    subleaf: u32,
)
    ensures
        cpuid_changed(cpuid, m) is Ok <==> forall|i: int|
            0 <= i < m.len() ==> cpuid.contains_key(
                key_of((#[trigger] m[i]).leaf, m[i].subleaf),
            ),
        cpuid_changed(cpuid, m) is Ok && (forall|i: int|
            0 <= i < m.len() ==> (#[trigger] m[i]).leaf != leaf || m[i].subleaf != subleaf)
            ==> cpuid_changed(cpuid, m)->Ok_0[key_of(leaf, subleaf)] == cpuid[key_of(
            leaf,
            subleaf,
        )],
        cpuid_changed(cpuid, m) is Ok && m.len() > 0 ==> {
            let last = m.last();
            let after = cpuid_changed(cpuid, m)->Ok_0[key_of(last.leaf, last.subleaf)];
            after.flags == last.flags
        },
    decreases m.len(),
{
    if m.len() > 0 {
        let sooner = m.drop_last();
        let n = m.len() - 1;
        let last = m.last();
        law_changes_reach_their_leaf(cpuid, sooner, leaf, subleaf);
        assert(m[n] == last);
        assert forall|i: int| 0 <= i < sooner.len() implies #[trigger] sooner[i] == m[i] by {}
        if cpuid_changed(cpuid, sooner) is Ok {
            law_answers_stay(cpuid, sooner);
            let before = cpuid_changed(cpuid, sooner)->Ok_0;
            assert(before.contains_key(key_of(last.leaf, last.subleaf)) <==> cpuid.contains_key(
                key_of(last.leaf, last.subleaf),
            ));
            if last.leaf != leaf || last.subleaf != subleaf {
                if key_of(last.leaf, last.subleaf) == key_of(leaf, subleaf) {
                    law_keys_are_unique((last.leaf, last.subleaf), (leaf, subleaf));
                }
            }
            let e = before[key_of(last.leaf, last.subleaf)];
            lemma_flags_stay(CpuidEntry { flags: last.flags, ..e }, last.modifiers@);
            assert forall|i: int|
                0 <= i < m.len() && cpuid_changed(cpuid, m) is Ok implies cpuid.contains_key(
                key_of((#[trigger] m[i]).leaf, m[i].subleaf),
            ) by {
                if i < n {
                    assert(sooner[i] == m[i]);
                }
            }
        } else {
            let i = choose|i: int|
                0 <= i < sooner.len() && !cpuid.contains_key(
                    key_of((#[trigger] sooner[i]).leaf, sooner[i].subleaf),
                );
            assert(m[i] == sooner[i]);
        }
    }
}

/// A template can be applied to the registers exactly when each one that it changes is there.
pub proof fn law_changed_registers_must_be_there(msrs: Map<u32, u64>, m: Seq<RegisterModifier>)
    ensures
        msrs_changed(msrs, m) is Ok <==> forall|i: int|
            0 <= i < m.len() ==> msrs.contains_key((#[trigger] m[i]).addr),
    decreases m.len(),
{
    if m.len() > 0 {
        let sooner = m.drop_last();
        let n = m.len() - 1;
        law_changed_registers_must_be_there(msrs, sooner);
        assert(m[n] == m.last());
        assert forall|i: int| 0 <= i < sooner.len() implies #[trigger] sooner[i] == m[i] by {}
        if msrs_changed(msrs, sooner) is Ok {
            law_registers_stay(msrs, sooner, m.last().addr);
            assert forall|i: int|
                0 <= i < m.len() && msrs_changed(msrs, m) is Ok implies msrs.contains_key(
                (#[trigger] m[i]).addr,
            ) by {
                if i < n {
                    assert(sooner[i] == m[i]);
                }
            }
        } else {
            let i = choose|i: int|
                0 <= i < sooner.len() && !msrs.contains_key((#[trigger] sooner[i]).addr);
            assert(m[i] == sooner[i]);
        }
    }
}

} // verus!
