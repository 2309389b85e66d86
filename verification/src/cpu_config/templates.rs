//! Templates for virtual CPUs.

use vstd::prelude::*;

use crate::cpu_config::x86_64::custom_cpu_template::CustomCpuTemplate;

verus! {

/// A change to the capabilities that the hypervisor must have.
#[derive(Debug, Clone, Copy, PartialEq, Eq, Structural)]
pub enum KvmCapability {
    /// The capability is needed.
    Add(u32),
    /// The capability is not needed.
    Remove(u32),
}

/// A change to some bits of a register.
#[derive(Debug, Clone, Copy, PartialEq, Eq, Structural)]
pub struct RegisterValueFilter<V> {
    /// The bits that change.
    pub filter: V,
    /// What they change to.
    pub value: V,
}

/// A register of 32 bits after a change.
pub open spec fn applied32(change: RegisterValueFilter<u32>, value: u32) -> u32 {
    (value & !change.filter) | change.value
}

/// A register of 64 bits after a change.
pub open spec fn applied64(change: RegisterValueFilter<u64>, value: u64) -> u64 {
    (value & !change.filter) | change.value
}

impl RegisterValueFilter<u32> {
    /// Changes a register.
    pub fn apply(&self, value: u32) -> (r: u32)
        ensures
            r == applied32(*self, value),
    {
        (value & !self.filter) | self.value
    }
}

impl RegisterValueFilter<u64> {
    /// Changes a register.
    pub fn apply(&self, value: u64) -> (r: u64)
        ensures
            r == applied64(*self, value),
    {
        (value & !self.filter) | self.value
    }
}

/// The bits of a filter are those of the value afterwards, and a change that is made twice is made
/// once.
pub proof fn law_filter_sets_its_bits(change: RegisterValueFilter<u64>, value: u64)
    ensures
        applied64(change, value) & change.filter == change.value & change.filter,
        applied64(change, applied64(change, value)) == applied64(change, value),
{
    let (f, v) = (change.filter, change.value);
    assert(((value & !f) | v) & f == v & f && ((((value & !f) | v) & !f) | v) == ((value & !f) | v))
        by (bit_vector);
}

/// Bits outside of a filter stay, where the value has none of them.
pub proof fn law_other_bits_stay(change: RegisterValueFilter<u64>, value: u64)
    requires
        change.value & !change.filter == 0,
    ensures
        applied64(change, value) & !change.filter == value & !change.filter,
{
    let (f, v) = (change.filter, change.value);
    assert(v & !f == 0 ==> ((value & !f) | v) & !f == value & !f) by (bit_vector);
}

/// A template that comes with the program.
#[derive(Debug, Clone, Copy, PartialEq, Eq, Structural)]
pub enum StaticCpuTemplate {
    /// For compute on Intel CPUs.
    C3,
    /// For general purposes on Intel CPUs.
    T2,
    /// For snapshots that move between Intel CPUs.
    T2S,
    /// For Intel CPUs from Cascade Lake on.
    T2CL,
    /// For AMD CPUs.
    T2A,
    /// No template.
    Unset,
}

/// The maker of a CPU.
#[derive(Debug, Clone, Copy, PartialEq, Eq, Structural)]
pub enum VendorId {
    /// `GenuineIntel`.
    Intel,
    /// `AuthenticAMD`.
    Amd,
}

/// The model of a CPU.
#[derive(Debug, Clone, Copy, PartialEq, Eq, Structural)]
pub struct CpuModel {
    /// Extended family.
    pub extended_family: u8,
    /// Extended model.
    pub extended_model: u8,
    /// Family.
    pub family: u8,
    /// Model.
    pub model: u8,
    /// Stepping.
    pub stepping: u8,
}

/// A template, given in full or by name.
#[derive(Debug)]
pub enum CpuTemplateType {
    /// A template given in full.
    Custom(CustomCpuTemplate),
    /// A template that comes with the program.
    Static(StaticCpuTemplate),
}

/// The template to be used.
#[derive(Debug)]
pub enum CpuTemplateSource<'a> {
    /// A template given in full.
    Custom(&'a CustomCpuTemplate),
    /// A template that comes with the program.
    Static(StaticCpuTemplate),
    /// A template that changes nothing.
    Empty,
}

/// Why a template cannot be used.
#[derive(Debug, Clone, Copy, PartialEq, Eq, Structural)]
pub enum GetCpuTemplateError {
    /// The maker of the host CPU is not known.
    GetCpuVendor,
    /// The template is for CPUs of another maker.
    CpuVendorMismatched,
    /// The name stands for no template.
    InvalidStaticCpuTemplate(StaticCpuTemplate),
    /// The template is for other models.
    InvalidCpuModel,
}

/// What is known of the host CPU, and of the CPUs that a template is for.
#[derive(Debug)]
pub struct TemplateSupport {
    /// The maker of the host CPU, if it is known.
    pub host_vendor: Option<VendorId>,
    /// The model of the host CPU.
    pub host_model: CpuModel,
    /// The maker of the CPUs that the template is for.
    pub vendor: VendorId,
    /// The models that the template is for.
    pub models: Vec<CpuModel>,
}

/// Whether a list holds a model.
pub fn has_model(models: &Vec<CpuModel>, model: CpuModel) -> (r: bool)
    ensures
        r == models@.contains(model),
{
    let mut i: usize = 0;
    while i < models.len()
        invariant
            i <= models@.len(),
            forall|j: int| 0 <= j < i ==> #[trigger] models@[j] != model,
        decreases models@.len() - i,
    {
        if models[i] == model {
            assert(models@[i as int] == model);
            return true;
        }
        i += 1;
    }
    false
}

/// The template to be used on a host.
pub fn get_cpu_template<'a>(template: &'a Option<CpuTemplateType>, support: &TemplateSupport) -> (r:
    Result<CpuTemplateSource<'a>, GetCpuTemplateError>)
    ensures
        match *template {
            None => r is Ok && r->Ok_0 is Empty,
            Some(CpuTemplateType::Custom(t)) => r is Ok && r->Ok_0 == CpuTemplateSource::Custom(&t),
            Some(CpuTemplateType::Static(name)) => if name == StaticCpuTemplate::Unset {
                r is Err && r->Err_0 == GetCpuTemplateError::InvalidStaticCpuTemplate(name)
            } else if support.host_vendor is None {
                r is Err && r->Err_0 == GetCpuTemplateError::GetCpuVendor
            } else if support.host_vendor->Some_0 != support.vendor {
                r is Err && r->Err_0 == GetCpuTemplateError::CpuVendorMismatched
            } else if !support.models@.contains(support.host_model) {
                r is Err && r->Err_0 == GetCpuTemplateError::InvalidCpuModel
            } else {
                r is Ok && r->Ok_0 == CpuTemplateSource::<'a>::Static(name)
            },
        },
{
    match template {
        None => Ok(CpuTemplateSource::Empty),
        Some(CpuTemplateType::Custom(t)) => Ok(CpuTemplateSource::Custom(t)),
        Some(CpuTemplateType::Static(name)) => {
            if *name == StaticCpuTemplate::Unset {
                return Err(GetCpuTemplateError::InvalidStaticCpuTemplate(StaticCpuTemplate::Unset));
            }
            match support.host_vendor {
                None => {
                    return Err(GetCpuTemplateError::GetCpuVendor);
                },
                Some(vendor) => {
                    if vendor != support.vendor {
                        return Err(GetCpuTemplateError::CpuVendorMismatched);
                    }
                },
            }
            if !has_model(&support.models, support.host_model) {
                return Err(GetCpuTemplateError::InvalidCpuModel);
            }
            Ok(CpuTemplateSource::Static(*name))
        },
    }
}

/// A change of a register sets each bit that it is about to the given value and keeps every other,
/// as long as it gives values only for the bits that it is about.
pub proof fn law_changes_are_bit_by_bit(
    wide: RegisterValueFilter<u64>,
    narrow: RegisterValueFilter<u32>,
    value: u64,
    n: u32,
    small: u32,
)
    requires
        n < 32,
        wide.value & !wide.filter == 0,
        narrow.value & !narrow.filter == 0,
    ensures
        applied64(wide, value) & (1u64 << n) == (if wide.filter & (1u64 << n) != 0 {
            wide.value & (1u64 << n)
        } else {
            value & (1u64 << n)
        }),
        applied64(wide, value) & (0x1_0000_0000u64 << n) == (if wide.filter & (0x1_0000_0000u64
            << n) != 0 {
            wide.value & (0x1_0000_0000u64 << n)
        } else {
            value & (0x1_0000_0000u64 << n)
        }),
        applied32(narrow, small) & (1u32 << n) == (if narrow.filter & (1u32 << n) != 0 {
            narrow.value & (1u32 << n)
        } else {
            small & (1u32 << n)
        }),
{
    let (f, v) = (wide.filter, wide.value);
    let (g, w) = (narrow.filter, narrow.value);
    assert(((value & !f) | v) & (1u64 << n) == (if f & (1u64 << n) != 0 {
        v & (1u64 << n)
    } else {
        value & (1u64 << n)
    }) && ((value & !f) | v) & (0x1_0000_0000u64 << n) == (if f & (0x1_0000_0000u64 << n) != 0 {
        v & (0x1_0000_0000u64 << n)
    } else {
        value & (0x1_0000_0000u64 << n)
    }) && ((small & !g) | w) & (1u32 << n) == (if g & (1u32 << n) != 0 {
        w & (1u32 << n)
    } else {
        small & (1u32 << n)
    })) by (bit_vector)
        requires
            n < 32,
            v & !f == 0,
            w & !g == 0,
    ;
}

} // verus!
