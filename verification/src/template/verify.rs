//! Verification that a CPU template was applied as intended.

use vstd::prelude::*;

use crate::cpu_config::templates::{applied64, RegisterValueFilter};
use crate::cpu_config::x86_64::custom_cpu_template::CpuidRegister;

verus! {

/// What a change is made to.
#[derive(Debug, Clone, Copy, PartialEq, Eq, Structural)]
pub enum ModifierKey {
    /// A register of an answer of the CPU identification instruction.
    Cpuid {
        /// Leaf.
        leaf: u32,
        /// Subleaf.
        subleaf: u32,
        /// Flags.
        flags: u32,
        /// The register.
        register: CpuidRegister,
    },
    /// A model specific register.
    Msr {
        /// Its address.
        addr: u32,
    },
}

/// In what a configuration does not follow a template.
#[derive(Debug, Clone, Copy, PartialEq, Eq, Structural)]
pub enum VerifyError {
    /// The configuration has nothing for a key of the template.
    KeyNotFound(ModifierKey),
    /// The values of the template and of the configuration differ in bits that the template sets.
    ValueMismatched(ModifierKey, u64, u64),
}

/// The change for a key, if there is one.
pub open spec fn change_for(
    entries: Seq<(ModifierKey, RegisterValueFilter<u64>)>,
    key: ModifierKey,
) -> Option<RegisterValueFilter<u64>>
    decreases entries.len(),
{
    if entries.len() == 0 {
        None
    } else if entries[0].0 == key {
        Some(entries[0].1)
    } else {
        change_for(entries.skip(1), key)
    }
}

/// In what the configuration does not follow one change of the template.
pub open spec fn fault(
    change: (ModifierKey, RegisterValueFilter<u64>),
    config: Seq<(ModifierKey, RegisterValueFilter<u64>)>,
) -> Option<VerifyError> {
    match change_for(config, change.0) {
        None => Some(VerifyError::KeyNotFound(change.0)),
        Some(found) => {
            let wanted = change.1.value & change.1.filter;
            let there = found.value & change.1.filter;
            if wanted != there {
                Some(VerifyError::ValueMismatched(change.0, wanted, there))
            } else {
                None
            }
        },
    }
}

/// Finds the change for a key.
fn find_change(entries: &Vec<(ModifierKey, RegisterValueFilter<u64>)>, key: ModifierKey) -> (r:
    Option<RegisterValueFilter<u64>>)
    ensures
        r == change_for(entries@, key),
{
    let mut i: usize = 0;
    assert(entries@.skip(0) =~= entries@);
    while i < entries.len()
        invariant
            i <= entries@.len(),
            change_for(entries@, key) == change_for(entries@.skip(i as int), key),
        decreases entries@.len() - i,
    {
        assert(entries@.skip(i as int).skip(1) =~= entries@.skip(i + 1));
        if entries[i].0 == key {
            return Some(entries[i].1);
        }
        i += 1;
    }
    None
}

/// Whether the bits that a template sets have the values of the template in a configuration. The
/// first one that does not is named.
pub fn verify_common(
    template: &Vec<(ModifierKey, RegisterValueFilter<u64>)>,
    config: &Vec<(ModifierKey, RegisterValueFilter<u64>)>,
) -> (r: Result<(), VerifyError>)
    ensures
        match r {
            Ok(_) => forall|i: int|
                0 <= i < template@.len() ==> fault(#[trigger] template@[i], config@) is None,
            Err(e) => exists|i: int|
                {
                    &&& 0 <= i < template@.len()
                    &&& fault(#[trigger] template@[i], config@) == Some(e)
                    &&& forall|j: int|
                        0 <= j < i ==> fault(#[trigger] template@[j], config@) is None
                },
        },
{
    let mut i: usize = 0;
    while i < template.len()
        invariant
            i <= template@.len(),
            forall|j: int| 0 <= j < i ==> fault(#[trigger] template@[j], config@) is None,
        decreases template@.len() - i,
    {
        let (key, wanted) = template[i];
        match find_change(config, key) {
            None => {
                assert(fault(template@[i as int], config@) == Some(VerifyError::KeyNotFound(key)));
                return Err(VerifyError::KeyNotFound(key));
            },
            Some(found) => {
                let template_value: u64 = wanted.value & wanted.filter;
                let config_value: u64 = found.value & wanted.filter;
                if template_value != config_value {
                    assert(fault(template@[i as int], config@) == Some(
                        VerifyError::ValueMismatched(key, template_value, config_value),
                    ));
                    return Err(VerifyError::ValueMismatched(key, template_value, config_value));
                }
            },
        }
        i += 1;
    }
    Ok(())
}

/// A register to which a change was made follows it.
pub proof fn law_applied_change_verifies(
    key: ModifierKey,
    change: RegisterValueFilter<u64>,
    before: u64,
    config: Seq<(ModifierKey, RegisterValueFilter<u64>)>,
)
    requires
        change_for(config, key) matches Some(found) && found.value == applied64(change, before),
    ensures
        fault((key, change), config) is None,
{
    crate::cpu_config::templates::law_filter_sets_its_bits(change, before);
}

} // verus!
