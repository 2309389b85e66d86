//! Configuration of the CPUs and the memory of a machine.

use vstd::prelude::*;

use crate::cpu_config::templates::{CpuTemplateType, StaticCpuTemplate};
use crate::cpu_config::x86_64::custom_cpu_template::CustomCpuTemplate;

verus! {

/// The most CPUs that a machine has.
pub const MAX_SUPPORTED_VCPUS: u8 = 32;

/// The size of the memory of a machine, in MiB, where none is given.
pub const DEFAULT_MEM_SIZE_MIB: usize = 128;

/// Mapping flag: pages of 2 MiB.
pub const HUGETLB_2M_FLAGS: i32 = 0x5404_0000;

/// Why a configuration is refused.
#[derive(Debug, Clone, Copy, PartialEq, Eq, Structural)]
pub enum MachineConfigError {
    /// The memory is smaller than the balloon.
    IncompatibleBalloonSize,
    /// The size of the memory is zero, or no multiple of the page size.
    InvalidMemorySize,
    /// The number of CPUs is zero, too large, or odd where two of them share a core.
    InvalidVcpuCount,
}

/// The pages that the memory of the guest is made of.
#[derive(Debug, Clone, Copy, PartialEq, Eq, Structural)]
pub enum HugePageConfig {
    /// Pages of the usual size.
    Regular,
    /// Pages of 2 MiB.
    Hugetlbfs2M,
}

impl HugePageConfig {
    /// The flags with which memory is mapped.
    pub fn mmap_flags(&self) -> (r: i32)
        ensures
            r == huge_page_flags(*self),
    {
        match self {
            HugePageConfig::Regular => 0,
            HugePageConfig::Hugetlbfs2M => HUGETLB_2M_FLAGS,
        }
    }
}

/// The flags with which memory is mapped.
pub open spec fn huge_page_flags(config: HugePageConfig) -> i32 {
    match config {
        HugePageConfig::Regular => 0,
        HugePageConfig::Hugetlbfs2M => HUGETLB_2M_FLAGS,
    }
}

/// Configuration of a machine.
#[derive(Debug)]
pub struct MachineConfig {
    /// Number of CPUs.
    pub vcpu_count: u8,
    /// Size of the memory, in MiB.
    pub mem_size_mib: usize,
    /// Whether two CPUs share a core.
    pub smt: bool,
    /// Template for the CPUs.
    pub cpu_template: Option<CpuTemplateType>,
    /// Whether writes of the guest are recorded.
    pub track_dirty_pages: bool,
    /// The pages that the memory is made of.
    pub huge_pages: HugePageConfig,
}

impl Default for MachineConfig {
    fn default() -> (r: MachineConfig)
        ensures
            r.vcpu_count == 1,
            r.mem_size_mib == DEFAULT_MEM_SIZE_MIB,
            !r.smt,
            r.cpu_template is None,
            !r.track_dirty_pages,
            r.huge_pages == HugePageConfig::Regular,
    {
        MachineConfig {
            vcpu_count: 1,
            mem_size_mib: DEFAULT_MEM_SIZE_MIB,
            smt: false,
            cpu_template: None,
            track_dirty_pages: false,
            huge_pages: HugePageConfig::Regular,
        }
    }
}

/// Changes to the configuration of a machine. What is not given stays.
#[derive(Debug, Clone, Copy, PartialEq, Eq, Structural)]
pub struct MachineConfigUpdate {
    /// Number of CPUs.
    pub vcpu_count: Option<u8>,
    /// Size of the memory, in MiB.
    pub mem_size_mib: Option<usize>,
    /// Whether two CPUs share a core.
    pub smt: Option<bool>,
    /// Template for the CPUs.
    pub cpu_template: Option<StaticCpuTemplate>,
    /// Whether writes of the guest are recorded.
    pub track_dirty_pages: Option<bool>,
    /// The pages that the memory is made of.
    pub huge_pages: Option<HugePageConfig>,
}

/// A new value, or the one that was there.
pub open spec fn or_kept<T>(new: Option<T>, kept: T) -> T {
    match new {
        Some(value) => value,
        None => kept,
    }
}

/// The template after a change.
pub open spec fn template_after(
    before: Option<CpuTemplateType>,
    update: Option<StaticCpuTemplate>,
) -> Option<CpuTemplateType> {
    match update {
        None => before,
        Some(StaticCpuTemplate::Unset) => None,
        Some(name) => Some(CpuTemplateType::Static(name)),
    }
}

/// The configuration after changes.
pub open spec fn updated(before: MachineConfig, update: MachineConfigUpdate) -> MachineConfig {
    MachineConfig {
        vcpu_count: or_kept(update.vcpu_count, before.vcpu_count),
        mem_size_mib: or_kept(update.mem_size_mib, before.mem_size_mib),
        smt: or_kept(update.smt, before.smt),
        cpu_template: template_after(before.cpu_template, update.cpu_template),
        track_dirty_pages: or_kept(update.track_dirty_pages, before.track_dirty_pages),
        huge_pages: or_kept(update.huge_pages, before.huge_pages),
    }
}

/// What is wrong with the numbers of a configuration.
pub open spec fn config_fault(
    vcpu_count: u8,
    smt: bool,
    mem_size_mib: usize,
    huge_pages: HugePageConfig,
) -> Option<MachineConfigError> {
    if vcpu_count == 0 || vcpu_count > MAX_SUPPORTED_VCPUS || (smt && vcpu_count > 1 && vcpu_count
        % 2 == 1) {
        Some(MachineConfigError::InvalidVcpuCount)
    } else if mem_size_mib == 0 || (huge_pages == HugePageConfig::Hugetlbfs2M && mem_size_mib % 2
        == 1) {
        Some(MachineConfigError::InvalidMemorySize)
    } else {
        None
    }
}

/// What is wrong with changes.
pub open spec fn update_fault(before: MachineConfig, update: MachineConfigUpdate) -> Option<
    MachineConfigError,
> {
    let after = updated(before, update);
    config_fault(after.vcpu_count, after.smt, after.mem_size_mib, after.huge_pages)
}

impl MachineConfig {
    /// The numbers of the configuration are fine.
    pub open spec fn wf(self) -> bool {
        config_fault(self.vcpu_count, self.smt, self.mem_size_mib, self.huge_pages) is None
    }

    /// Says what is wrong with changes, or else the size of the memory after them.
    pub fn check_update(&self, update: &MachineConfigUpdate) -> (r: Result<usize, MachineConfigError>)
        ensures
            match update_fault(*self, *update) {
                Some(e) => r is Err && r->Err_0 == e,
                None => r is Ok && r->Ok_0 == updated(*self, *update).mem_size_mib,
            },
    {
        let vcpu_count: u8 = match update.vcpu_count {
            Some(count) => count,
            None => self.vcpu_count,
        };
        let smt: bool = match update.smt {
            Some(smt) => smt,
            None => self.smt,
        };
        if vcpu_count == 0 || vcpu_count > MAX_SUPPORTED_VCPUS {
            return Err(MachineConfigError::InvalidVcpuCount);
        }
        if smt && vcpu_count > 1 && vcpu_count % 2 == 1 {
            return Err(MachineConfigError::InvalidVcpuCount);
        }
        let mem_size_mib: usize = match update.mem_size_mib {
            Some(size) => size,
            None => self.mem_size_mib,
        };
        let huge_pages = match update.huge_pages {
            Some(pages) => pages,
            None => self.huge_pages,
        };
        if mem_size_mib == 0 || (huge_pages == HugePageConfig::Hugetlbfs2M && mem_size_mib % 2
            == 1) {
            return Err(MachineConfigError::InvalidMemorySize);
        }
        Ok(mem_size_mib)
    }

    /// Makes changes that nothing is wrong with.
    pub fn update(&mut self, update: &MachineConfigUpdate)
        requires
            update_fault(*old(self), *update) is None,
        ensures
            *final(self) == updated(*old(self), *update),
            final(self).wf(),
    {
        if let Some(count) = update.vcpu_count {
            self.vcpu_count = count;
        }
        if let Some(size) = update.mem_size_mib {
            self.mem_size_mib = size;
        }
        if let Some(smt) = update.smt {
            self.smt = smt;
        }
        if let Some(name) = update.cpu_template {
            self.cpu_template = match name {
                StaticCpuTemplate::Unset => None,
                _ => Some(CpuTemplateType::Static(name)),
            };
        }
        if let Some(track) = update.track_dirty_pages {
            self.track_dirty_pages = track;
        }
        if let Some(pages) = update.huge_pages {
            self.huge_pages = pages;
        }
    }

    /// Whether `self` and `other` configure a machine in the same way.
    pub open spec fn same_as(self, other: MachineConfig) -> bool {
        &&& self == (MachineConfig { cpu_template: self.cpu_template, ..other })
        &&& match (self.cpu_template, other.cpu_template) {
            (Some(CpuTemplateType::Custom(a)), Some(CpuTemplateType::Custom(b))) => a.same_as(b),
            (a, b) => a == b,
        }
    }

    /// A copy.
    pub fn copied(&self) -> (r: MachineConfig)
        ensures
            r.same_as(*self),
    {
        let cpu_template = match &self.cpu_template {
            Some(CpuTemplateType::Custom(t)) => Some(CpuTemplateType::Custom(t.copied())),
            Some(CpuTemplateType::Static(name)) => Some(CpuTemplateType::Static(*name)),
            None => None,
        };
        MachineConfig {
            vcpu_count: self.vcpu_count,
            mem_size_mib: self.mem_size_mib,
            smt: self.smt,
            cpu_template,
            track_dirty_pages: self.track_dirty_pages,
            huge_pages: self.huge_pages,
        }
    }

    /// Takes a template that is given in full.
    pub fn set_custom_cpu_template(&mut self, cpu_template: CustomCpuTemplate)
        ensures
            *final(self) == (MachineConfig {
                cpu_template: Some(CpuTemplateType::Custom(cpu_template)),
                ..*old(self)
            }),
    {
        self.cpu_template = Some(CpuTemplateType::Custom(cpu_template));
    }
}

/// Which machines can be: those with 1 to 32 vCPUs, an even number or one of them if they share
/// cores, and with memory, of an even number of MiB if it is made of pages of two MiB.
pub proof fn law_which_machines_can_be(
    vcpu_count: u8,
    smt: bool,
    mem_size_mib: usize,
    huge_pages: HugePageConfig,
)
    ensures
        ({
            let vcpus = 1 <= vcpu_count <= 32 && (smt ==> vcpu_count == 1 || vcpu_count as int % 2
                == 0);
            let memory = mem_size_mib > 0 && (huge_pages == HugePageConfig::Hugetlbfs2M
                ==> mem_size_mib as int % 2 == 0);
            let fault = config_fault(vcpu_count, smt, mem_size_mib, huge_pages);
            &&& fault is None <==> vcpus && memory
            &&& fault == Some(MachineConfigError::InvalidVcpuCount) <==> !vcpus
            &&& fault == Some(MachineConfigError::InvalidMemorySize) <==> vcpus && !memory
        }),
{
}

/// A change replaces what it gives and keeps everything else. The template is taken away by the one
/// that is not set.
pub proof fn law_changes_replace_what_they_give(before: MachineConfig, update: MachineConfigUpdate)
    ensures
        ({
            let after = updated(before, update);
            &&& update.vcpu_count is None ==> after.vcpu_count == before.vcpu_count
            &&& update.vcpu_count matches Some(n) ==> after.vcpu_count == n
            &&& update.mem_size_mib is None ==> after.mem_size_mib == before.mem_size_mib
            &&& update.mem_size_mib matches Some(n) ==> after.mem_size_mib == n
            &&& update.smt is None ==> after.smt == before.smt
            &&& update.smt matches Some(on) ==> after.smt == on
            &&& update.track_dirty_pages is None ==> after.track_dirty_pages
                == before.track_dirty_pages
            &&& update.track_dirty_pages matches Some(on) ==> after.track_dirty_pages == on
            &&& update.huge_pages is None ==> after.huge_pages == before.huge_pages
            &&& update.huge_pages matches Some(pages) ==> after.huge_pages == pages
            &&& update.cpu_template is None ==> after.cpu_template == before.cpu_template
            &&& update.cpu_template == Some(StaticCpuTemplate::Unset) ==> after.cpu_template is None
            &&& update.cpu_template matches Some(name) ==> name != StaticCpuTemplate::Unset
                ==> after.cpu_template == Some(CpuTemplateType::Static(name))
        }),
{
}

/// Memory is mapped in pages of two to the power of 21 bytes only where that is asked for.
pub proof fn law_pages_of_the_asked_size()
    ensures
        huge_page_flags(HugePageConfig::Regular) == 0,
        huge_page_flags(HugePageConfig::Hugetlbfs2M) == 0x4_0000 + 21 * 0x400_0000,
{
}

} // verus!
