//! What the hypervisor must be capable of.

use vstd::prelude::*;

use crate::arch::x86_64::kvm::{default_capabilities, default_capability_list};
use crate::cpu_config::templates::KvmCapability;

verus! {

/// The version of the interface of the hypervisor.
pub const KVM_API_VERSION: i32 = 12;

/// Why a hypervisor cannot be used.
#[derive(Debug, Clone, Copy, PartialEq, Eq, Structural)]
pub enum KvmError {
    /// Its interface has another version.
    ApiVersion(i32),
    /// It lacks a capability.
    Capabilities(u32),
}

/// The hypervisor.
#[derive(Debug)]
pub struct Kvm {
    /// Changes to the capabilities that it must have.
    pub kvm_cap_modifiers: Vec<KvmCapability>,
}

/// What is saved of the hypervisor.
#[derive(Debug)]
pub struct KvmState {
    /// Changes to the capabilities that it must have.
    pub kvm_cap_modifiers: Vec<KvmCapability>,
}

impl Default for KvmState {
    fn default() -> (r: KvmState)
        ensures
            r.kvm_cap_modifiers@.len() == 0,
    {
        KvmState { kvm_cap_modifiers: Vec::new() }
    }
}

/// The index of the first occurrence of a capability, or the length if there is none.
pub open spec fn position(caps: Seq<u32>, cap: u32) -> int
    decreases caps.len(),
{
    if caps.len() == 0 {
        0
    } else if caps[0] == cap {
        0
    } else {
        1 + position(caps.skip(1), cap)
    }
}

/// Capabilities without the one at an index, whose place the last one takes.
pub open spec fn swap_removed(caps: Seq<u32>, at: int) -> Seq<u32> {
    caps.update(at, caps.last()).drop_last()
}

/// The capabilities after one change.
pub open spec fn caps_changed(caps: Seq<u32>, modifier: KvmCapability) -> Seq<u32> {
    match modifier {
        KvmCapability::Add(cap) => if caps.contains(cap) {
            caps
        } else {
            caps.push(cap)
        },
        KvmCapability::Remove(cap) => if caps.contains(cap) {
            swap_removed(caps, position(caps, cap))
        } else {
            caps
        },
    }
}

/// The capabilities after changes, one after the other.
pub open spec fn all_caps_changed(caps: Seq<u32>, modifiers: Seq<KvmCapability>) -> Seq<u32>
    decreases modifiers.len(),
{
    if modifiers.len() == 0 {
        caps
    } else {
        caps_changed(all_caps_changed(caps, modifiers.drop_last()), modifiers.last())
    }
}

/// Where a capability is found.
proof fn lemma_position(caps: Seq<u32>, cap: u32, i: int)
    requires
        0 <= i < caps.len(),
        caps[i] == cap,
        forall|j: int| 0 <= j < i ==> #[trigger] caps[j] != cap,
    ensures
        position(caps, cap) == i,
    decreases caps.len(),
{
    if i > 0 {
        assert forall|j: int| 0 <= j < i - 1 implies #[trigger] caps.skip(1)[j] != cap by {
            assert(caps[j + 1] != cap);
        }
        lemma_position(caps.skip(1), cap, i - 1);
    } else {
        assert(caps[0] == cap);
    }
}

/// A capability that is there is found.
proof fn lemma_position_found(caps: Seq<u32>, cap: u32)
    requires
        caps.contains(cap),
    ensures
        0 <= position(caps, cap) < caps.len(),
        caps[position(caps, cap)] == cap,
    decreases caps.len(),
{
    if caps[0] != cap {
        let i = choose|i: int| 0 <= i < caps.len() && caps[i] == cap;
        assert(caps.skip(1)[i - 1] == cap);
        lemma_position_found(caps.skip(1), cap);
    }
}

/// The capabilities that are needed have no doubles, and the last change to a capability decides
/// whether it is needed.
pub proof fn law_last_change_decides(modifiers: Seq<KvmCapability>, caps: Seq<u32>)
    requires
        caps.no_duplicates(),
    ensures
        all_caps_changed(caps, modifiers).no_duplicates(),
        modifiers.len() > 0 ==> match modifiers.last() {
            KvmCapability::Add(cap) => all_caps_changed(caps, modifiers).contains(cap),
            KvmCapability::Remove(cap) => !all_caps_changed(caps, modifiers).contains(cap),
        },
    decreases modifiers.len(),
{
    if modifiers.len() > 0 {
        law_last_change_decides(modifiers.drop_last(), caps);
        let before = all_caps_changed(caps, modifiers.drop_last());
        let after = all_caps_changed(caps, modifiers);
        match modifiers.last() {
            KvmCapability::Add(cap) => {
                if !before.contains(cap) {
                    assert(after.last() == cap);
                    assert(after.contains(cap));
                }
            },
            KvmCapability::Remove(cap) => {
                if before.contains(cap) {
                    lemma_position_found(before, cap);
                    let at = position(before, cap);
                    assert forall|i: int| 0 <= i < after.len() implies #[trigger] after[i]
                        != cap by {
                        if i == at {
                            assert(before[before.len() - 1] != before[at]);
                        } else {
                            assert(before[i] != before[at]);
                        }
                    }
                }
            },
        }
    }
}

/// Whether a list holds a capability, and where.
fn find_cap(caps: &Vec<u32>, cap: u32) -> (r: Option<usize>)
    ensures
        match r {
            Some(i) => caps@.contains(cap) && i < caps@.len() && position(caps@, cap) == i,
            None => !caps@.contains(cap),
        },
{
    let mut i: usize = 0;
    while i < caps.len()
        invariant
            i <= caps@.len(),
            forall|j: int| 0 <= j < i ==> #[trigger] caps@[j] != cap,
        decreases caps@.len() - i,
    {
        if caps[i] == cap {
            assert(caps@[i as int] == cap);
            proof {
                lemma_position(caps@, cap, i as int);
            }
            return Some(i);
        }
        i += 1;
    }
    None
}

impl Kvm {
    /// The hypervisor, if its interface has the right version and it answers for each capability
    /// that is needed.
    pub fn new(kvm_cap_modifiers: Vec<KvmCapability>, api_version: i32, answers: &Vec<i32>) -> (r:
        Result<Kvm, KvmError>)
        requires
            answers@.len() == all_caps_changed(default_capabilities(), kvm_cap_modifiers@).len(),
        ensures
            ({
                let caps = all_caps_changed(default_capabilities(), kvm_cap_modifiers@);
                if api_version != KVM_API_VERSION {
                    r is Err && r->Err_0 == KvmError::ApiVersion(api_version)
                } else {
                    match r {
                        Ok(kvm) => {
                            &&& kvm.kvm_cap_modifiers == kvm_cap_modifiers
                            &&& forall|i: int|
                                0 <= i < caps.len() ==> #[trigger] answers@[i] != 0
                        },
                        Err(e) => exists|i: int| #[trigger]
                            first_missing(answers@, i) && e == KvmError::Capabilities(caps[i]),
                    }
                }
            }),
    {
        if api_version != KVM_API_VERSION {
            return Err(KvmError::ApiVersion(api_version));
        }
        let total_caps = Kvm::combine_capabilities(&kvm_cap_modifiers);
        match Kvm::check_capabilities(&total_caps, answers) {
            Ok(_) => Ok(Kvm { kvm_cap_modifiers }),
            Err(cap) => Err(KvmError::Capabilities(cap)),
        }
    }

    /// The capabilities that are needed.
    pub fn combine_capabilities(kvm_cap_modifiers: &Vec<KvmCapability>) -> (r: Vec<u32>)
        ensures
            r@ == all_caps_changed(default_capabilities(), kvm_cap_modifiers@),
    {
        let mut total_caps = default_capability_list();
        let ghost modifiers = kvm_cap_modifiers@;
        let mut i: usize = 0;
        assert(modifiers.take(0) =~= Seq::<KvmCapability>::empty());
        while i < kvm_cap_modifiers.len()
            invariant
                modifiers == kvm_cap_modifiers@,
                i <= modifiers.len(),
                total_caps@ == all_caps_changed(default_capabilities(), modifiers.take(i as int)),
            decreases modifiers.len() - i,
        {
            assert(modifiers.take(i + 1).drop_last() =~= modifiers.take(i as int));
            let ghost before = total_caps@;
            match kvm_cap_modifiers[i] {
                KvmCapability::Add(cap) => {
                    if find_cap(&total_caps, cap).is_none() {
                        total_caps.push(cap);
                    }
                },
                KvmCapability::Remove(cap) => {
                    if let Some(pos) = find_cap(&total_caps, cap) {
                        total_caps.swap_remove(pos);
                        assert(total_caps@ =~= swap_removed(before, pos as int));
                    }
                },
            }
            i += 1;
        }
        assert(modifiers.take(i as int) =~= modifiers);
        total_caps
    }

    /// Names the first capability for which the hypervisor answers zero.
    pub fn check_capabilities(capabilities: &Vec<u32>, answers: &Vec<i32>) -> (r: Result<(), u32>)
        requires
            capabilities@.len() == answers@.len(),
        ensures
            match r {
                Ok(_) => forall|i: int| 0 <= i < answers@.len() ==> #[trigger] answers@[i] != 0,
                Err(cap) => exists|i: int| #[trigger]
                    first_missing(answers@, i) && cap == capabilities@[i],
            },
    {
        let mut i: usize = 0;
        while i < capabilities.len()
            invariant
                capabilities@.len() == answers@.len(),
                i <= answers@.len(),
                forall|j: int| 0 <= j < i ==> #[trigger] answers@[j] != 0,
            decreases answers@.len() - i,
        {
            if answers[i] == 0 {
                assert(first_missing(answers@, i as int));
                return Err(capabilities[i]);
            }
            i += 1;
        }
        Ok(())
    }

    /// What is saved of the hypervisor.
    pub fn save_state(&self) -> (r: KvmState)
        ensures
            r.kvm_cap_modifiers@ == self.kvm_cap_modifiers@,
    {
        let mut kvm_cap_modifiers: Vec<KvmCapability> = Vec::new();
        let mut i: usize = 0;
        while i < self.kvm_cap_modifiers.len()
            invariant
                i <= self.kvm_cap_modifiers@.len(),
                kvm_cap_modifiers@ == self.kvm_cap_modifiers@.take(i as int),
            decreases self.kvm_cap_modifiers@.len() - i,
        {
            kvm_cap_modifiers.push(self.kvm_cap_modifiers[i]);
            assert(kvm_cap_modifiers@ =~= self.kvm_cap_modifiers@.take(i + 1));
            i += 1;
        }
        assert(kvm_cap_modifiers@ =~= self.kvm_cap_modifiers@);
        KvmState { kvm_cap_modifiers }
    }
}

/// Whether an index is that of the first answer that is zero.
pub open spec fn first_missing(answers: Seq<i32>, i: int) -> bool {
    &&& 0 <= i < answers.len()
    &&& answers[i] == 0
    &&& forall|j: int| 0 <= j < i ==> #[trigger] answers[j] != 0
}

/// The capability that a change is about.
pub open spec fn changed_capability(modifier: KvmCapability) -> u32 {
    match modifier {
        KvmCapability::Add(cap) => cap,
        KvmCapability::Remove(cap) => cap,
    }
}

/// Whether a capability is asked for is decided by the last change that is about it. Without one it
/// is asked for if it is among the default ones.
pub proof fn law_last_change_of_a_capability_decides(
    modifiers: Seq<KvmCapability>,
    caps: Seq<u32>,
    cap: u32,
    i: int,
)
    requires
        caps.no_duplicates(),
        forall|j: int|
            i < j < modifiers.len() ==> changed_capability(#[trigger] modifiers[j]) != cap,
        0 <= i < modifiers.len() ==> changed_capability(modifiers[i]) == cap,
        -1 <= i < modifiers.len(),
    ensures
        all_caps_changed(caps, modifiers).contains(cap) <==> (if i >= 0 {
            modifiers[i] is Add
        } else {
            caps.contains(cap)
        }),
    decreases modifiers.len(),
{
    if modifiers.len() > 0 {
        let sooner = modifiers.drop_last();
        let n = modifiers.len() - 1;
        law_last_change_decides(sooner, caps);
        law_last_change_decides(modifiers, caps);
        if i < n {
            assert forall|j: int| i < j < sooner.len() implies changed_capability(
                #[trigger] sooner[j],
            ) != cap by {
                assert(sooner[j] == modifiers[j]);
            }
            if i >= 0 {
                assert(sooner[i] == modifiers[i]);
            }
            law_last_change_of_a_capability_decides(sooner, caps, cap, i);
            assert(changed_capability(modifiers[n]) != cap);
            lemma_others_stay(all_caps_changed(caps, sooner), modifiers[n], cap);
        }
    }
}

proof fn lemma_others_stay(caps: Seq<u32>, modifier: KvmCapability, other: u32)
    requires
        changed_capability(modifier) != other,
    ensures
        caps_changed(caps, modifier).contains(other) <==> caps.contains(other),
{
    let after = caps_changed(caps, modifier);
    match modifier {
        KvmCapability::Add(cap) => {
            if !caps.contains(cap) {
                if caps.contains(other) {
                    let k = choose|k: int| 0 <= k < caps.len() && caps[k] == other;
                    assert(after[k] == other);
                }
                if after.contains(other) {
                    let k = choose|k: int| 0 <= k < after.len() && after[k] == other;
                    assert(caps[k] == other);
                }
            }
        },
        KvmCapability::Remove(cap) => {
            if caps.contains(cap) {
                lemma_position_found(caps, cap);
                let at = position(caps, cap);
                if caps.contains(other) {
                    let k = choose|k: int| 0 <= k < caps.len() && caps[k] == other;
                    if k == caps.len() - 1 {
                        assert(after[at] == other);
                    } else {
                        assert(after[k] == other);
                    }
                }
                if after.contains(other) {
                    let k = choose|k: int| 0 <= k < after.len() && after[k] == other;
                    if k == at {
                        assert(caps[caps.len() - 1] == other);
                    } else {
                        assert(caps[k] == other);
                    }
                }
            }
        },
    }
}

/// Which capabilities are asked for by default.
pub proof fn law_default_capabilities(cap: u32)
    ensures
        default_capabilities().contains(cap) <==> cap == 0 || cap == 3 || cap == 4 || cap == 7 || cap
            == 14 || cap == 32 || cap == 33 || cap == 35 || cap == 36 || cap == 39 || cap == 41
            || cap == 50 || cap == 55 || cap == 56,
        default_capabilities().no_duplicates(),
{
    let all = default_capabilities();
    assert(all[0] == 0 && all[1] == 36 && all[2] == 32 && all[3] == 3 && all[4] == 4 && all[5] == 33
        && all[6] == 35 && all[7] == 39 && all[8] == 50 && all[9] == 14 && all[10] == 41 && all[11]
        == 56 && all[12] == 55 && all[13] == 7);
}

} // verus!
