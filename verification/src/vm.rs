//! The state of one VM: memory regions, virtual CPUs, emulated devices,
//! interrupt bitmap and migration frames, and the decisions taken on it.
use vstd::prelude::*;

use crate::arch::{
    GICC_CTLR_EN_BIT, GICC_CTLR_EOIMODENS_BIT, PAGE_SIZE, PTE_S2_FIELD_AP_RO, PTE_S2_NORMAL,
    PTE_S2_RO,
};
use crate::bitmap::FlexBitmap;
use crate::mm::PageFrame;

verus! {

/// Number of interrupts the per-VM interrupt bitmap covers.
pub const INT_BITMAP_LEN: usize = 4096;

/// Hypervisor control value of a VCPU whose interrupt controller is passed through.
pub const HCR_EL2_GIC_PASSTHROUGH_VAL: u64 = 0x80080001;

/// Hypervisor control value of a VCPU whose interrupt controller is emulated.
pub const HCR_EL2_GIC_EMU_VAL: u64 = 0x80080019;

/// One physical memory region of a VM: `[pa_start, pa_start + pa_length)`,
/// seen by the VM at its physical address plus `offset`.
#[derive(Clone, Copy, Debug)]
pub struct VmPa {
    pub pa_start: usize,
    pub pa_length: usize,
    pub offset: isize,
}

impl VmPa {
    /// The empty region at address 0.
    pub fn default() -> (r: VmPa)
        ensures
            r.pa_start == 0,
            r.pa_length == 0,
            r.offset == 0,
    {
        VmPa { pa_start: 0, pa_length: 0, offset: 0 }
    }
}

/// A virtual CPU: its id in the VM, the physical CPU it runs on, and the
/// GIC control and hypervisor control values it runs with.
#[derive(Clone, Copy, Debug)]
pub struct Vcpu {
    pub id: usize,
    pub phys_id: usize,
    pub gich_ctlr: u32,
    pub hcr: u64,
}

impl Vcpu {
    /// Id of the VCPU in its VM.
    pub fn id(&self) -> (r: usize)
        ensures
            r == self.id,
    {
        self.id
    }

    /// The physical CPU the VCPU runs on.
    pub fn phys_id(&self) -> (r: usize)
        ensures
            r == self.phys_id,
    {
        self.phys_id
    }
}

/// An emulated device of a VM, by the handle of its back end.
#[derive(Clone, Copy, Debug, PartialEq, Eq, Structural)]
pub enum EmuDevs {
    Vgic(usize),
    VirtioBlk(usize),
    VirtioNet(usize),
    VirtioConsole(usize),
    NoDevice,
}

/// Configuration of one emulated device: where the VM sees it and its interrupt.
#[derive(Clone, Copy, Debug)]
pub struct VmEmulatedDeviceConfig {
    pub base_ipa: usize,
    pub irq_id: usize,
}

/// Configuration of a VM, as far as its running state depends on it.
pub struct VmConfigEntry {
    pub med_blk_idx: Option<usize>,
    pub emulated_device_list: Vec<VmEmulatedDeviceConfig>,
}

/// A stage-2 page table, by the physical address of its root.
#[derive(Clone, Copy, Debug)]
pub struct PageTable {
    pub base_pa: usize,
}

/// Maps `[ipa, ipa + len)` of a VM to `[pa, pa + len)` with entry attributes `pte`
/// in the page table whose root is at `pt_dir`.
#[derive(Clone, Copy, Debug)]
pub struct PtMapRequest {
    pub pt_dir: usize,
    pub ipa: usize,
    pub len: usize,
    pub pa: usize,
    pub pte: usize,
}

/// Sets access permission `ap` on `[ipa, ipa + len)` in the page table whose
/// root is at `pt_dir`.
#[derive(Clone, Copy, Debug)]
pub struct PtAccessRequest {
    pub pt_dir: usize,
    pub ipa: usize,
    pub len: usize,
    pub ap: usize,
}

/// A mapping to install in the page table of the master VM.
#[derive(Clone, Copy, Debug)]
pub struct SharedMapping {
    pub ipa: usize,
    pub len: usize,
    pub pa: usize,
    pub pte: usize,
}

/// Where the context of a migrating VM is saved or restored: the VM context at
/// `vm_ctx_pa`, the context of `vcpu` at `vcpu_ctx_pa`.
#[derive(Clone, Copy, Debug)]
pub struct MigrateContext {
    pub vcpu: Vcpu,
    pub vm_ctx_pa: usize,
    pub vcpu_ctx_pa: usize,
}

/// The running state of a VM.
pub struct VmInner {
    pub id: usize,
    pub ready: bool,
    pub config: Option<VmConfigEntry>,
    pub dtb: Option<usize>,
    pub pt: Option<PageTable>,
    pub mem_region_num: usize,
    pub pa_region: Vec<VmPa>,
    pub entry_point: usize,
    pub has_master: bool,
    pub vcpu_list: Vec<Vcpu>,
    pub cpu_num: usize,
    pub ncpu: usize,
    pub intc_dev_id: usize,
    pub int_bitmap: Option<FlexBitmap>,
    pub share_mem_base: usize,
    pub migrate_save_pf: Vec<PageFrame>,
    pub migrate_restore_pf: Vec<PageFrame>,
    pub emu_devs: Vec<EmuDevs>,
}

/// Bit `i` of the word `m`.
pub open spec fn mask_bit(m: usize, i: int) -> bool {
    0 <= i < usize::BITS && (m >> (i as usize)) & 1usize == 1usize
}

/// Where shared memory starts in the address space of the master VM.
pub open spec fn initial_share_mem_base() -> usize {
    0xd_0000_0000u64 as usize
}

/// `v` is the state of a VM `id` just created: nothing configured, no VCPU,
/// region or device, an interrupt bitmap with no interrupt, and the initial
/// shared memory base.
pub open spec fn is_fresh_vm(v: VmInner, id: usize) -> bool {
    &&& v.id == id
    &&& !v.ready
    &&& v.config is None
    &&& v.dtb is None
    &&& v.pt is None
    &&& v.mem_region_num == 0
    &&& v.pa_region@.len() == 0
    &&& v.entry_point == 0
    &&& !v.has_master
    &&& v.vcpu_list@.len() == 0
    &&& v.cpu_num == 0
    &&& v.ncpu == 0
    &&& v.intc_dev_id == 0
    &&& v.int_bitmap is Some
    &&& v.int_bitmap.unwrap().wf()
    &&& v.int_bitmap.unwrap()@ == Seq::new(INT_BITMAP_LEN as nat, |i: int| false)
    &&& v.share_mem_base == initial_share_mem_base()
    &&& v.migrate_save_pf@.len() == 0
    &&& v.migrate_restore_pf@.len() == 0
    &&& v.emu_devs@.len() == 0
}

fn share_mem_base_init() -> (r: usize)
    ensures
        r == initial_share_mem_base(),
{
    0xd_0000_0000u64 as usize
}

/// The first VCPU among `vcpus[i..n]` that runs on physical CPU `p`.
pub open spec fn first_vcpu_from(vcpus: Seq<Vcpu>, i: int, n: int, p: int) -> Option<int>
    decreases n - i,
{
    if i < 0 || i >= n {
        None
    } else if vcpus[i].phys_id == p {
        Some(i)
    } else {
        first_vcpu_from(vcpus, i + 1, n, p)
    }
}

/// What `vcpuid_to_pcpuid` answers: the physical CPU of VCPU `v`, if `v` is
/// one of the VM's first `cpu_num` VCPUs.
pub open spec fn pcpu_of(vcpus: Seq<Vcpu>, cpu_num: int, v: int) -> Option<int> {
    if 0 <= v < cpu_num {
        Some(vcpus[v].phys_id as int)
    } else {
        None
    }
}

/// What `pcpuid_to_vcpuid` answers: the first of the VM's first `cpu_num`
/// VCPUs that runs on physical CPU `p`.
pub open spec fn vcpu_of(vcpus: Seq<Vcpu>, cpu_num: int, p: int) -> Option<int> {
    first_vcpu_from(vcpus, 0, cpu_num, p)
}

/// The search for a VCPU on physical CPU `p` stays within the VCPU list: the
/// list is at least as long as the CPU count, or a VCPU on `p` comes first.
pub open spec fn pcpu_lookup_in_bounds(vcpus: Seq<Vcpu>, cpu_num: int, p: int) -> bool {
    cpu_num <= vcpus.len() || first_vcpu_from(vcpus, 0, vcpus.len() as int, p) is Some
}

/// Bit `b` of the physical-CPU mask that `vcpu_to_pcpu_mask(mask, len)` gives.
pub open spec fn vcpu_to_pcpu_bit(vcpus: Seq<Vcpu>, cpu_num: int, mask: usize, len: int, b: int) -> bool {
    exists|v: int|
        0 <= v < len && #[trigger] mask_bit(mask, v) && pcpu_of(vcpus, cpu_num, v) == Some(b)
}

/// Bit `b` of the VCPU mask that `pcpu_to_vcpu_mask(mask, len)` gives.
pub open spec fn pcpu_to_vcpu_bit(vcpus: Seq<Vcpu>, cpu_num: int, mask: usize, len: int, b: int) -> bool {
    exists|p: int|
        0 <= p < len && #[trigger] mask_bit(mask, p) && vcpu_of(vcpus, cpu_num, p) == Some(b)
}

proof fn lemma_or_shift_bit(x: usize, s: usize, b: usize)
    requires
        s < usize::BITS,
        b < usize::BITS,
    ensures
        ((x | (1usize << s)) >> b) & 1usize == 1usize <==> (x >> b) & 1usize == 1usize || b == s,
{
    assert(((x | (1usize << s)) >> b) & 1usize == 1usize <==> (x >> b) & 1usize == 1usize || b
        == s) by (bit_vector)
        requires
            s < usize::BITS,
            b < usize::BITS,
    ;
}

proof fn lemma_and_shift_bit(x: usize, i: usize)
    requires
        i < usize::BITS,
    ensures
        (x & (1usize << i) != 0usize) == ((x >> i) & 1usize == 1usize),
{
    assert((x & (1usize << i) != 0usize) == ((x >> i) & 1usize == 1usize)) by (bit_vector)
        requires
            i < usize::BITS,
    ;
}

proof fn lemma_zero_bits(b: usize)
    requires
        b < usize::BITS,
    ensures
        (0usize >> b) & 1usize != 1usize,
{
    assert((0usize >> b) & 1usize != 1usize) by (bit_vector);
}

proof fn lemma_v2p_step(vcpus: Seq<Vcpu>, n: int, mask: usize, i: int, b: int)
    requires
        0 <= i,
    ensures
        vcpu_to_pcpu_bit(vcpus, n, mask, i + 1, b) == (vcpu_to_pcpu_bit(vcpus, n, mask, i, b) || (
        mask_bit(mask, i) && pcpu_of(vcpus, n, i) == Some(b))),
{
    if vcpu_to_pcpu_bit(vcpus, n, mask, i + 1, b) {
        let v = choose|v: int|
            0 <= v < i + 1 && #[trigger] mask_bit(mask, v) && pcpu_of(vcpus, n, v) == Some(b);
        if v < i {
            assert(vcpu_to_pcpu_bit(vcpus, n, mask, i, b));
        }
    }
    if vcpu_to_pcpu_bit(vcpus, n, mask, i, b) {
        let v = choose|v: int|
            0 <= v < i && #[trigger] mask_bit(mask, v) && pcpu_of(vcpus, n, v) == Some(b);
        assert(0 <= v < i + 1);
    }
    if mask_bit(mask, i) && pcpu_of(vcpus, n, i) == Some(b) {
        assert(0 <= i < i + 1);
    }
}

proof fn lemma_p2v_step(vcpus: Seq<Vcpu>, n: int, mask: usize, i: int, b: int)
    requires
        0 <= i,
    ensures
        pcpu_to_vcpu_bit(vcpus, n, mask, i + 1, b) == (pcpu_to_vcpu_bit(vcpus, n, mask, i, b) || (
        mask_bit(mask, i) && vcpu_of(vcpus, n, i) == Some(b))),
{
    if pcpu_to_vcpu_bit(vcpus, n, mask, i + 1, b) {
        let p = choose|p: int|
            0 <= p < i + 1 && #[trigger] mask_bit(mask, p) && vcpu_of(vcpus, n, p) == Some(b);
        if p < i {
            assert(pcpu_to_vcpu_bit(vcpus, n, mask, i, b));
        }
    }
    if pcpu_to_vcpu_bit(vcpus, n, mask, i, b) {
        let p = choose|p: int|
            0 <= p < i && #[trigger] mask_bit(mask, p) && vcpu_of(vcpus, n, p) == Some(b);
        assert(0 <= p < i + 1);
    }
    if mask_bit(mask, i) && vcpu_of(vcpus, n, i) == Some(b) {
        assert(0 <= i < i + 1);
    }
}

/// The search for a VCPU from index `i` finds one at or after `i`, on `p`,
/// with none on `p` in between.
proof fn lemma_first_vcpu_from(vcpus: Seq<Vcpu>, i: int, n: int, p: int)
    requires
        0 <= i,
    ensures
        first_vcpu_from(vcpus, i, n, p) matches Some(v) ==> i <= v < n && vcpus[v].phys_id == p
            && forall|u: int| i <= u < v ==> vcpus[u].phys_id != p,
        first_vcpu_from(vcpus, i, n, p) is None ==> forall|u: int|
            i <= u < n ==> vcpus[u].phys_id != p,
    decreases n - i,
{
    if 0 <= i < n && vcpus[i].phys_id != p {
        lemma_first_vcpu_from(vcpus, i + 1, n, p);
    }
}

/// The first `n` VCPUs run on pairwise different physical CPUs.
pub open spec fn distinct_pcpus(vcpus: Seq<Vcpu>, n: int) -> bool {
    forall|u: int, v: int|
        0 <= u < n && 0 <= v < n && u != v ==> #[trigger] vcpus[u].phys_id != #[trigger] vcpus[v].phys_id
}

/// The physical CPU found for a VCPU runs that VCPU; when the VCPUs run on
/// distinct physical CPUs, looking a VCPU's physical CPU up again gives back
/// the VCPU.
pub proof fn lemma_vcpuid_pcpuid_roundtrip(vcpus: Seq<Vcpu>, n: int, v: int, p: int)
    requires
        n <= vcpus.len(),
    ensures
        vcpu_of(vcpus, n, p) matches Some(u) ==> pcpu_of(vcpus, n, u) == Some(p),
        distinct_pcpus(vcpus, n) && 0 <= v < n ==> vcpu_of(vcpus, n, vcpus[v].phys_id as int)
            == Some(v),
{
    lemma_first_vcpu_from(vcpus, 0, n, p);
    lemma_first_vcpu_from(vcpus, 0, n, vcpus[v].phys_id as int);
    if distinct_pcpus(vcpus, n) && 0 <= v < n {
        let q = vcpus[v].phys_id as int;
        match vcpu_of(vcpus, n, q) {
            Some(u) => {
                if u != v {
                    assert(vcpus[u].phys_id != vcpus[v].phys_id);
                }
            },
            None => {
                assert(vcpus[v].phys_id != q);
            },
        }
    }
}

/// Turning a VCPU mask into a physical-CPU mask and back gives back the
/// mask, restricted to the VCPUs it could name (those below both the mask
/// length and the VM's CPU count), when the VCPUs run on distinct physical
/// CPUs that all fit in the second mask length.
pub proof fn lemma_cpu_mask_roundtrip(
    vcpus: Seq<Vcpu>,
    n: int,
    mask: usize,
    len: int,
    pmask: usize,
    len2: int,
    vmask: usize,
)
    requires
        n <= vcpus.len(),
        0 <= len <= usize::BITS,
        0 <= len2 <= usize::BITS,
        distinct_pcpus(vcpus, n),
        forall|v: int| 0 <= v < n ==> #[trigger] vcpus[v].phys_id < len2,
        forall|b: int|
            0 <= b < usize::BITS ==> (#[trigger] mask_bit(pmask, b) == vcpu_to_pcpu_bit(
                vcpus,
                n,
                mask,
                len,
                b,
            )),
        forall|b: int|
            0 <= b < usize::BITS ==> (#[trigger] mask_bit(vmask, b) == pcpu_to_vcpu_bit(
                vcpus,
                n,
                pmask,
                len2,
                b,
            )),
    ensures
        forall|b: int|
            0 <= b < usize::BITS ==> (#[trigger] mask_bit(vmask, b) == (mask_bit(mask, b) && b
                < len && b < n)),
{
    assert forall|b: int| 0 <= b < usize::BITS implies (#[trigger] mask_bit(vmask, b) == (mask_bit(
        mask,
        b,
    ) && b < len && b < n)) by {
        if mask_bit(vmask, b) {
            let p = choose|p: int|
                0 <= p < len2 && #[trigger] mask_bit(pmask, p) && vcpu_of(vcpus, n, p) == Some(b);
            assert(vcpu_to_pcpu_bit(vcpus, n, mask, len, p));
            let v = choose|v: int|
                0 <= v < len && #[trigger] mask_bit(mask, v) && pcpu_of(vcpus, n, v) == Some(p);
            lemma_vcpuid_pcpuid_roundtrip(vcpus, n, v, p);
        }
        if mask_bit(mask, b) && b < len && b < n {
            let p = vcpus[b].phys_id as int;
            lemma_vcpuid_pcpuid_roundtrip(vcpus, n, b, p);
            assert(vcpu_to_pcpu_bit(vcpus, n, mask, len, p));
            assert(mask_bit(pmask, p));
            assert(pcpu_to_vcpu_bit(vcpus, n, pmask, len2, b));
        }
    }
}

impl VmInner {
    /// A VM that is not created yet (id 0).
    pub fn default() -> (r: VmInner)
        ensures
            is_fresh_vm(r, 0),
    {
        VmInner::new(0)
    }

    /// A VM `id` just created.
    pub fn new(id: usize) -> (r: VmInner)
        ensures
            is_fresh_vm(r, id),
    {
        VmInner {
            id,
            ready: false,
            config: None,
            dtb: None,
            pt: None,
            mem_region_num: 0,
            pa_region: Vec::new(),
            entry_point: 0,
            has_master: false,
            vcpu_list: Vec::new(),
            cpu_num: 0,
            ncpu: 0,
            intc_dev_id: 0,
            int_bitmap: Some(FlexBitmap::new(INT_BITMAP_LEN)),
            share_mem_base: share_mem_base_init(),
            migrate_save_pf: Vec::new(),
            migrate_restore_pf: Vec::new(),
            emu_devs: Vec::new(),
        }
    }

    /// The physical CPU of VCPU `vcpuid`, or an error when `vcpuid` is not
    /// below the VM's CPU count.
    pub fn vcpuid_to_pcpuid(&self, vcpuid: usize) -> (r: Result<usize, ()>)
        requires
            vcpuid < self.cpu_num ==> vcpuid < self.vcpu_list@.len(),
        ensures
            r == (match pcpu_of(self.vcpu_list@, self.cpu_num as int, vcpuid as int) {
                Some(p) => Ok::<usize, ()>(p as usize),
                None => Err(()),
            }),
    {
        if vcpuid < self.cpu_num {
            Ok(self.vcpu_list[vcpuid].phys_id())
        } else {
            Err(())
        }
    }

    /// The first VCPU (below the VM's CPU count) that runs on physical CPU
    /// `pcpuid`, or an error when there is none.
    pub fn pcpuid_to_vcpuid(&self, pcpuid: usize) -> (r: Result<usize, ()>)
        requires
            pcpu_lookup_in_bounds(self.vcpu_list@, self.cpu_num as int, pcpuid as int),
        ensures
            r == (match vcpu_of(self.vcpu_list@, self.cpu_num as int, pcpuid as int) {
                Some(v) => Ok::<usize, ()>(v as usize),
                None => Err(()),
            }),
            r matches Ok(v) ==> v < self.cpu_num && self.vcpu_list@[v as int].phys_id == pcpuid
                && forall|u: int| 0 <= u < v ==> (#[trigger] self.vcpu_list@[u]).phys_id != pcpuid,
            r is Err ==> forall|u: int|
                0 <= u < self.cpu_num ==> (#[trigger] self.vcpu_list@[u]).phys_id != pcpuid,
    {
        proof {
            lemma_first_vcpu_from(self.vcpu_list@, 0, self.cpu_num as int, pcpuid as int);
        }
        let ghost vcpus = self.vcpu_list@;
        let ghost n = self.cpu_num as int;
        let ghost p = pcpuid as int;
        let mut v: usize = 0;
        while v < self.cpu_num
            invariant
                vcpus == self.vcpu_list@,
                n == self.cpu_num,
                p == pcpuid as int,
                v <= self.cpu_num,
                n <= vcpus.len() || first_vcpu_from(vcpus, v as int, vcpus.len() as int, p) is Some,
                vcpu_of(vcpus, n, p) == first_vcpu_from(vcpus, v as int, n, p),
            decreases self.cpu_num - v,
        {
            assert(v < vcpus.len()) by {
                if !(n <= vcpus.len()) {
                    assert(first_vcpu_from(vcpus, v as int, vcpus.len() as int, p) is Some);
                }
            }
            if self.vcpu_list[v].phys_id() == pcpuid {
                proof {
                    lemma_first_vcpu_from(vcpus, 0, n, p);
                }
                return Ok(v);
            }
            v = v + 1;
        }
        Err(())
    }

    /// The mask of physical CPUs that run the VCPUs set in the first `len`
    /// bits of `mask`; VCPUs not below the VM's CPU count are left out.
    pub fn vcpu_to_pcpu_mask(&self, mask: usize, len: usize) -> (r: usize)
        requires
            len <= usize::BITS,
            len <= self.vcpu_list@.len() || self.cpu_num <= self.vcpu_list@.len(),
            forall|v: int|
                0 <= v < len && v < self.cpu_num && #[trigger] mask_bit(mask, v)
                    ==> self.vcpu_list@[v].phys_id < usize::BITS,
        ensures
            forall|b: int|
                0 <= b < usize::BITS ==> (#[trigger] mask_bit(r, b) == vcpu_to_pcpu_bit(
                    self.vcpu_list@,
                    self.cpu_num as int,
                    mask,
                    len as int,
                    b,
                )),
    {
        let ghost vcpus = self.vcpu_list@;
        let ghost n = self.cpu_num as int;
        let mut pmask: usize = 0;
        let mut i: usize = 0;
        proof {
            assert forall|b: int| 0 <= b < usize::BITS implies !#[trigger] mask_bit(0, b) by {
                lemma_zero_bits(b as usize);
            }
        }
        while i < len
            invariant
                vcpus == self.vcpu_list@,
                n == self.cpu_num,
                len <= usize::BITS,
                i <= len,
                len <= vcpus.len() || n <= vcpus.len(),
                forall|v: int|
                    0 <= v < len && v < n && #[trigger] mask_bit(mask, v) ==> vcpus[v].phys_id
                        < usize::BITS,
                forall|b: int|
                    0 <= b < usize::BITS ==> (#[trigger] mask_bit(pmask, b) == vcpu_to_pcpu_bit(
                        vcpus,
                        n,
                        mask,
                        i as int,
                        b,
                    )),
            decreases len - i,
        {
            let shift = self.vcpuid_to_pcpuid(i);
            proof {
                lemma_and_shift_bit(mask, i);
            }
            let old_pmask = pmask;
            let hit = mask & (1usize << i) != 0 && !shift.is_err();
            if hit {
                let s = match shift {
                    Ok(s) => s,
                    Err(_) => 0,
                };
                proof {
                    lemma_first_vcpu_from(vcpus, 0, n, i as int);
                    assert(mask_bit(mask, i as int));
                }
                pmask = pmask | (1usize << s);
            }
            proof {
                assert forall|b: int| 0 <= b < usize::BITS implies (#[trigger] mask_bit(
                    pmask,
                    b,
                ) == vcpu_to_pcpu_bit(vcpus, n, mask, i + 1, b)) by {
                    assert(mask_bit(old_pmask, b) == vcpu_to_pcpu_bit(vcpus, n, mask, i as int, b));
                    lemma_v2p_step(vcpus, n, mask, i as int, b);
                    if hit {
                        lemma_or_shift_bit(old_pmask, shift.unwrap(), b as usize);
                    }
                }
            }
            i = i + 1;
        }
        pmask
    }

    /// The mask of VCPUs that run on the physical CPUs set in the first `len`
    /// bits of `mask`: for each such CPU, the first VCPU (below the VM's CPU
    /// count) on it, if any.
    pub fn pcpu_to_vcpu_mask(&self, mask: usize, len: usize) -> (r: usize)
        requires
            len <= usize::BITS,
            forall|p: int|
                0 <= p < len ==> #[trigger] pcpu_lookup_in_bounds(
                    self.vcpu_list@,
                    self.cpu_num as int,
                    p,
                ),
            forall|p: int|
                0 <= p < len && #[trigger] mask_bit(mask, p) ==> match vcpu_of(
                    self.vcpu_list@,
                    self.cpu_num as int,
                    p,
                ) {
                    Some(v) => v < usize::BITS,
                    None => true,
                },
        ensures
            forall|b: int|
                0 <= b < usize::BITS ==> (#[trigger] mask_bit(r, b) == pcpu_to_vcpu_bit(
                    self.vcpu_list@,
                    self.cpu_num as int,
                    mask,
                    len as int,
                    b,
                )),
    {
        let ghost vcpus = self.vcpu_list@;
        let ghost n = self.cpu_num as int;
        let mut vmask: usize = 0;
        let mut i: usize = 0;
        proof {
            assert forall|b: int| 0 <= b < usize::BITS implies !#[trigger] mask_bit(0, b) by {
                lemma_zero_bits(b as usize);
            }
        }
        while i < len
            invariant
                vcpus == self.vcpu_list@,
                n == self.cpu_num,
                forall|p: int| 0 <= p < len ==> #[trigger] pcpu_lookup_in_bounds(vcpus, n, p),
                len <= usize::BITS,
                i <= len,
                forall|p: int|
                    0 <= p < len && #[trigger] mask_bit(mask, p) ==> match vcpu_of(vcpus, n, p) {
                        Some(v) => v < usize::BITS,
                        None => true,
                    },
                forall|b: int|
                    0 <= b < usize::BITS ==> (#[trigger] mask_bit(vmask, b) == pcpu_to_vcpu_bit(
                        vcpus,
                        n,
                        mask,
                        i as int,
                        b,
                    )),
            decreases len - i,
        {
            let shift = self.pcpuid_to_vcpuid(i);
            proof {
                lemma_and_shift_bit(mask, i);
            }
            let old_vmask = vmask;
            let hit = mask & (1usize << i) != 0 && !shift.is_err();
            if hit {
                let s = match shift {
                    Ok(s) => s,
                    Err(_) => 0,
                };
                proof {
                    lemma_first_vcpu_from(vcpus, 0, n, i as int);
                    assert(mask_bit(mask, i as int));
                }
                vmask = vmask | (1usize << s);
            }
            proof {
                assert forall|b: int| 0 <= b < usize::BITS implies (#[trigger] mask_bit(
                    vmask,
                    b,
                ) == pcpu_to_vcpu_bit(vcpus, n, mask, i + 1, b)) by {
                    assert(mask_bit(old_vmask, b) == pcpu_to_vcpu_bit(vcpus, n, mask, i as int, b));
                    lemma_p2v_step(vcpus, n, mask, i as int, b);
                    if hit {
                        lemma_or_shift_bit(old_vmask, shift.unwrap(), b as usize);
                    }
                }
            }
            i = i + 1;
        }
        vmask
    }
}

/// The emulated devices `p` holds for.
pub open spec fn count_matching(s: Seq<EmuDevs>, p: spec_fn(EmuDevs) -> bool) -> nat
    decreases s.len(),
{
    if s.len() == 0 {
        0
    } else {
        count_matching(s.drop_last(), p) + if p(s.last()) {
            1nat
        } else {
            0nat
        }
    }
}

/// Device `i` is the `id`-th (from 0) device of `s` that `p` holds for.
pub open spec fn is_nth_matching(s: Seq<EmuDevs>, p: spec_fn(EmuDevs) -> bool, id: int, i: int) -> bool {
    0 <= i < s.len() && p(s[i]) && count_matching(s.take(i), p) == id
}

/// A virtio network device.
pub open spec fn is_net_dev(d: EmuDevs) -> bool {
    d is VirtioNet
}

/// A virtio block device.
pub open spec fn is_blk_dev(d: EmuDevs) -> bool {
    d is VirtioBlk
}

proof fn lemma_count_prefix_step(s: Seq<EmuDevs>, p: spec_fn(EmuDevs) -> bool, i: int)
    requires
        0 <= i < s.len(),
    ensures
        count_matching(s.take(i + 1), p) == count_matching(s.take(i), p) + if p(s[i]) {
            1nat
        } else {
            0nat
        },
{
    assert(s.take(i + 1).drop_last() =~= s.take(i));
}

proof fn lemma_count_prefix_mono(s: Seq<EmuDevs>, p: spec_fn(EmuDevs) -> bool, i: int, j: int)
    requires
        0 <= i <= j <= s.len(),
    ensures
        count_matching(s.take(i), p) <= count_matching(s.take(j), p),
        count_matching(s.take(j), p) <= j,
    decreases j,
{
    if j > 0 {
        lemma_count_prefix_step(s, p, j - 1);
        if i < j {
            lemma_count_prefix_mono(s, p, i, j - 1);
        } else {
            lemma_count_prefix_mono(s, p, i - 1, j - 1);
        }
    }
}

/// At most one device is the `id`-th of its kind.
proof fn lemma_nth_unique(s: Seq<EmuDevs>, p: spec_fn(EmuDevs) -> bool, id: int, i: int, j: int)
    requires
        is_nth_matching(s, p, id, i),
        is_nth_matching(s, p, id, j),
    ensures
        i == j,
{
    if i < j {
        lemma_count_prefix_step(s, p, i);
        lemma_count_prefix_mono(s, p, i + 1, j);
    } else if j < i {
        lemma_count_prefix_step(s, p, j);
        lemma_count_prefix_mono(s, p, j + 1, i);
    }
}

/// The kind of device `nth_matching_dev` looks for.
pub open spec fn dev_pred(net: bool) -> spec_fn(EmuDevs) -> bool {
    if net {
        |d: EmuDevs| is_net_dev(d)
    } else {
        |d: EmuDevs| is_blk_dev(d)
    }
}

/// The `id`-th network device (`net`) or block device of `devs`, or `NoDevice`.
fn nth_matching_dev(devs: &Vec<EmuDevs>, net: bool, id: usize) -> (r: EmuDevs)
    ensures
        forall|i: int| is_nth_matching(devs@, dev_pred(net), id as int, i) ==> r == devs@[i],
        (forall|i: int| !is_nth_matching(devs@, dev_pred(net), id as int, i)) ==> r
            == EmuDevs::NoDevice,
{
    let ghost p = dev_pred(net);
    let mut dev_num: usize = 0;
    let mut i: usize = 0;
    while i < devs.len()
        invariant
            p == dev_pred(net),
            i <= devs@.len(),
            dev_num == count_matching(devs@.take(i as int), p),
            forall|j: int| 0 <= j < i ==> !is_nth_matching(devs@, p, id as int, j),
        decreases devs@.len() - i,
    {
        proof {
            lemma_count_prefix_step(devs@, p, i as int);
            lemma_count_prefix_mono(devs@, p, i as int, i as int);
        }
        let d = devs[i];
        let hit = if net {
            match d {
                EmuDevs::VirtioNet(_) => true,
                _ => false,
            }
        } else {
            match d {
                EmuDevs::VirtioBlk(_) => true,
                _ => false,
            }
        };
        assert(hit == p(d));
        if hit {
            if dev_num == id {
                proof {
                    assert(is_nth_matching(devs@, p, id as int, i as int));
                    assert forall|j: int| is_nth_matching(devs@, p, id as int, j) implies devs@[j]
                        == d by {
                        lemma_nth_unique(devs@, p, id as int, i as int, j);
                    }
                }
                return d;
            }
            dev_num = dev_num + 1;
        }
        i = i + 1;
    }
    proof {
        assert forall|j: int| !is_nth_matching(devs@, p, id as int, j) by {
            if 0 <= j < devs@.len() {
            }
        }
    }
    EmuDevs::NoDevice
}

/// The last emulated device among `list[0..n]` that the VM sees at `ipa`.
pub open spec fn last_dev_at(list: Seq<VmEmulatedDeviceConfig>, ipa: int, n: int) -> Option<int>
    decreases n,
{
    if n <= 0 {
        None
    } else if list[n - 1].base_ipa == ipa {
        Some(n - 1)
    } else {
        last_dev_at(list, ipa, n - 1)
    }
}

/// The device index `emu_console_dev(ipa)` answers with: the last configured
/// device at `ipa`, if any.
pub open spec fn console_index(list: Seq<VmEmulatedDeviceConfig>, ipa: u64) -> Option<int> {
    last_dev_at(list, ipa as usize as int, list.len() as int)
}

/// `addr` lies in `[base, base + size)`.
pub open spec fn in_range_spec(addr: int, base: int, size: int) -> bool {
    base <= addr < base + size
}

/// Whether `addr` lies in `[base, base + size)`.
pub fn in_range(addr: usize, base: usize, size: usize) -> (r: bool)
    ensures
        r == in_range_spec(addr as int, base as int, size as int),
{
    addr >= base && addr - base < size
}

/// `a - off`, wrapped into the address space.
pub open spec fn addr_minus(a: usize, off: isize) -> usize {
    let x = a - off;
    if x > usize::MAX {
        (x - (usize::MAX + 1)) as usize
    } else if x < 0 {
        (x + (usize::MAX + 1)) as usize
    } else {
        x as usize
    }
}

fn sub_offset(a: usize, off: isize) -> (r: usize)
    ensures
        r == addr_minus(a, off),
{
    if off >= 0 {
        a.wrapping_sub(off as usize)
    } else if off == isize::MIN {
        a.wrapping_add((isize::MAX as usize) + 1)
    } else {
        a.wrapping_add((-off) as usize)
    }
}

/// The address of region `r` that the VM sees at `ipa`.
pub open spec fn region_pa(r: VmPa, ipa: usize) -> usize {
    addr_minus(ipa, r.offset)
}

/// The translation of `ipa` by the first of `regions[i..n]` that holds it.
pub open spec fn ipa2pa_from(regions: Seq<VmPa>, i: int, n: int, ipa: usize) -> Option<usize>
    decreases n - i,
{
    if i < 0 || i >= n {
        None
    } else if in_range_spec(
        region_pa(regions[i], ipa) as int,
        regions[i].pa_start as int,
        regions[i].pa_length as int,
    ) {
        Some(region_pa(regions[i], ipa))
    } else {
        ipa2pa_from(regions, i + 1, n, ipa)
    }
}

/// The access-permission changes `pt_set_access_permission(pa, ap)` asks of
/// the page table at `pt_dir`, for the regions `regions[0..n]`.
pub open spec fn access_requests(
    regions: Seq<VmPa>,
    n: int,
    pt_dir: usize,
    pa: usize,
    ap: usize,
) -> Seq<PtAccessRequest>
    decreases n,
{
    if n <= 0 {
        Seq::empty()
    } else {
        let r = regions[n - 1];
        let rest = access_requests(regions, n - 1, pt_dir, pa, ap);
        if r.pa_start >= pa && pa < r.pa_start + r.pa_length {
            rest.push(
                PtAccessRequest {
                    pt_dir,
                    ipa: vstd::wrapping::usize_specs::wrapping_add_signed(pa, r.offset),
                    len: PAGE_SIZE,
                    ap,
                },
            )
        } else {
            rest
        }
    }
}

/// The read-only requests `pt_read_only` asks of the page table at `pt_dir`:
/// each of `regions[0..n]`, where the VM sees it.
pub open spec fn read_only_requests(regions: Seq<VmPa>, n: int, pt_dir: usize) -> Seq<PtAccessRequest> {
    Seq::new(
        n as nat,
        |i: int|
            PtAccessRequest {
                pt_dir,
                ipa: vstd::wrapping::usize_specs::wrapping_add_signed(
                    regions[i].pa_start,
                    regions[i].offset,
                ),
                len: regions[i].pa_length,
                ap: PTE_S2_FIELD_AP_RO,
            },
    )
}

impl VmInner {
    /// Sets the interrupt-controller mode of every VCPU: emulated (`emu`) or
    /// partially passed through.
    pub fn init_intc_mode(&mut self, emu: bool)
        ensures
            *final(self) == (VmInner { vcpu_list: final(self).vcpu_list, ..*old(self) }),
            final(self).vcpu_list@.len() == old(self).vcpu_list@.len(),
            forall|i: int|
                0 <= i < old(self).vcpu_list@.len() ==> {
                    let v = #[trigger] final(self).vcpu_list@[i];
                    let o = old(self).vcpu_list@[i];
                    &&& v.id == o.id
                    &&& v.phys_id == o.phys_id
                    &&& v.gich_ctlr == (if emu {
                        (GICC_CTLR_EN_BIT | GICC_CTLR_EOIMODENS_BIT) as u32
                    } else {
                        GICC_CTLR_EN_BIT as u32
                    })
                    &&& v.hcr == (if emu {
                        HCR_EL2_GIC_EMU_VAL
                    } else {
                        HCR_EL2_GIC_PASSTHROUGH_VAL
                    })
                },
    {
        let n = self.vcpu_list.len();
        let mut i: usize = 0;
        while i < n
            invariant
                *self == (VmInner { vcpu_list: self.vcpu_list, ..*old(self) }),
                n == old(self).vcpu_list@.len(),
                self.vcpu_list@.len() == n,
                i <= n,
                forall|j: int|
                    i <= j < n ==> #[trigger] self.vcpu_list@[j] == old(self).vcpu_list@[j],
                forall|j: int|
                    0 <= j < i ==> {
                        let v = #[trigger] self.vcpu_list@[j];
                        let o = old(self).vcpu_list@[j];
                        &&& v.id == o.id
                        &&& v.phys_id == o.phys_id
                        &&& v.gich_ctlr == (if emu {
                            (GICC_CTLR_EN_BIT | GICC_CTLR_EOIMODENS_BIT) as u32
                        } else {
                            GICC_CTLR_EN_BIT as u32
                        })
                        &&& v.hcr == (if emu {
                            HCR_EL2_GIC_EMU_VAL
                        } else {
                            HCR_EL2_GIC_PASSTHROUGH_VAL
                        })
                    },
            decreases n - i,
        {
            let mut v = self.vcpu_list[i];
            if !emu {
                v.gich_ctlr = GICC_CTLR_EN_BIT as u32;
                v.hcr = HCR_EL2_GIC_PASSTHROUGH_VAL;
            } else {
                v.gich_ctlr = (GICC_CTLR_EN_BIT | GICC_CTLR_EOIMODENS_BIT) as u32;
                v.hcr = HCR_EL2_GIC_EMU_VAL;
            }
            self.vcpu_list.set(i, v);
            i = i + 1;
        }
    }

    /// Index of the VM's mediated block device.
    pub fn med_blk_id(&self) -> (r: usize)
        requires
            self.config is Some,
            self.config.unwrap().med_blk_idx is Some,
        ensures
            r == self.config.unwrap().med_blk_idx.unwrap(),
    {
        match &self.config {
            Some(c) => match c.med_blk_idx {
                Some(idx) => idx,
                None => 0,
            },
            None => 0,
        }
    }

    /// Address of the VM's device tree, if it has one.
    pub fn dtb(&self) -> (r: Option<usize>)
        ensures
            r == self.dtb,
    {
        self.dtb
    }

    /// Records the address of the VM's device tree.
    pub fn set_dtb(&mut self, val: usize)
        ensures
            *final(self) == (VmInner { dtb: Some(val), ..*old(self) }),
    {
        self.dtb = Some(val);
    }

    /// VCPU `index`, if the VM has that many.
    pub fn vcpu(&self, index: usize) -> (r: Option<Vcpu>)
        ensures
            index < self.vcpu_list@.len() ==> r == Some(self.vcpu_list@[index as int]),
            index >= self.vcpu_list@.len() ==> r is None,
    {
        if self.vcpu_list.len() > index {
            Some(self.vcpu_list[index])
        } else {
            None
        }
    }

    /// Adds a VCPU.
    pub fn push_vcpu(&mut self, vcpu: Vcpu)
        ensures
            final(self).vcpu_list@ == old(self).vcpu_list@.push(vcpu),
            *final(self) == (VmInner { vcpu_list: final(self).vcpu_list, ..*old(self) }),
    {
        self.vcpu_list.push(vcpu);
    }

    /// Records whether the VM has a master CPU.
    pub fn set_has_master_cpu(&mut self, has_master: bool)
        ensures
            *final(self) == (VmInner { has_master, ..*old(self) }),
    {
        self.has_master = has_master;
    }

    /// Whether the VM has a master CPU.
    pub fn has_master_cpu(&self) -> (r: bool)
        ensures
            r == self.has_master,
    {
        self.has_master
    }

    /// Sets the number of CPUs the VM is configured with.
    pub fn set_ncpu(&mut self, ncpu: usize)
        ensures
            *final(self) == (VmInner { ncpu, ..*old(self) }),
    {
        self.ncpu = ncpu;
    }

    /// Sets the number of VCPUs the VM runs.
    pub fn set_cpu_num(&mut self, cpu_num: usize)
        ensures
            *final(self) == (VmInner { cpu_num, ..*old(self) }),
    {
        self.cpu_num = cpu_num;
    }

    /// Sets the entry point of the VM's image.
    pub fn set_entry_point(&mut self, entry_point: usize)
        ensures
            *final(self) == (VmInner { entry_point, ..*old(self) }),
    {
        self.entry_point = entry_point;
    }

    /// Installs emulated device `emu` at index `idx`: in place of an empty
    /// slot, or past the end after as many empty slots as the gap needs.
    /// A slot that already holds a device cannot be overwritten.
    pub fn set_emu_devs(&mut self, idx: usize, emu: EmuDevs)
        requires
            idx < old(self).emu_devs@.len() ==> old(self).emu_devs@[idx as int]
                == EmuDevs::NoDevice,
        ensures
            *final(self) == (VmInner { emu_devs: final(self).emu_devs, ..*old(self) }),
            idx < old(self).emu_devs@.len() ==> final(self).emu_devs@ == old(
                self,
            ).emu_devs@.update(idx as int, emu),
            idx >= old(self).emu_devs@.len() ==> final(self).emu_devs@ == old(self).emu_devs@
                + Seq::new((idx - old(self).emu_devs@.len()) as nat, |i: int| EmuDevs::NoDevice)
                + seq![emu],
    {
        if idx < self.emu_devs.len() {
            self.emu_devs.set(idx, emu);
            return ;
        }
        let ghost start = self.emu_devs@;
        while idx > self.emu_devs.len()
            invariant
                *self == (VmInner { emu_devs: self.emu_devs, ..*old(self) }),
                start == old(self).emu_devs@,
                idx >= start.len(),
                start.len() <= self.emu_devs@.len() <= idx,
                self.emu_devs@ == start + Seq::new(
                    (self.emu_devs@.len() - start.len()) as nat,
                    |i: int| EmuDevs::NoDevice,
                ),
            decreases idx - self.emu_devs@.len(),
        {
            self.emu_devs.push(EmuDevs::NoDevice);
            assert(self.emu_devs@ =~= start + Seq::new(
                (self.emu_devs@.len() - start.len()) as nat,
                |i: int| EmuDevs::NoDevice,
            ));
        }
        self.emu_devs.push(emu);
    }

    /// Sets which emulated device is the interrupt controller.
    pub fn set_intc_dev_id(&mut self, intc_dev_id: usize)
        ensures
            *final(self) == (VmInner { intc_dev_id, ..*old(self) }),
    {
        self.intc_dev_id = intc_dev_id;
    }

    /// Records that interrupt `int_id` belongs to the VM.
    pub fn set_int_bit_map(&mut self, int_id: usize)
        requires
            old(self).int_bitmap is Some,
            old(self).int_bitmap.unwrap().wf(),
            int_id < old(self).int_bitmap.unwrap()@.len(),
        ensures
            *final(self) == (VmInner { int_bitmap: final(self).int_bitmap, ..*old(self) }),
            final(self).int_bitmap is Some,
            final(self).int_bitmap.unwrap().wf(),
            final(self).int_bitmap.unwrap()@ == old(self).int_bitmap.unwrap()@.update(
                int_id as int,
                true,
            ),
    {
        match &mut self.int_bitmap {
            Some(b) => b.set(int_id, true),
            None => {},
        }
    }

    /// Sets the VM's configuration.
    pub fn set_config_entry(&mut self, config: Option<VmConfigEntry>)
        ensures
            *final(self) == (VmInner { config, ..*old(self) }),
    {
        self.config = config;
    }

    /// The request that maps `[ipa, ipa + len)` to `[pa, pa + len)` with
    /// attributes `pte` in the VM's page table.
    pub fn pt_map_range(&self, ipa: usize, len: usize, pa: usize, pte: usize) -> (r: PtMapRequest)
        requires
            self.pt is Some,
        ensures
            r == (PtMapRequest { pt_dir: self.pt.unwrap().base_pa, ipa, len, pa, pte }),
    {
        let pt_dir = match &self.pt {
            Some(pt) => pt.base_pa,
            None => 0,
        };
        PtMapRequest { pt_dir, ipa, len, pa, pte }
    }

    /// The requests that set access permission `ap` on the page at `pa`, as
    /// the VM sees it, for each of the VM's regions that starts at or above
    /// `pa` and ends above it.
    pub fn pt_set_access_permission(&self, pa: usize, ap: usize) -> (r: Vec<PtAccessRequest>)
        requires
            self.pt is Some,
            self.mem_region_num <= self.pa_region@.len(),
            forall|i: int|
                0 <= i < self.mem_region_num ==> #[trigger] self.pa_region@[i].pa_start
                    + self.pa_region@[i].pa_length <= usize::MAX,
        ensures
            r@ == access_requests(
                self.pa_region@,
                self.mem_region_num as int,
                self.pt.unwrap().base_pa,
                pa,
                ap,
            ),
            r@ == Seq::new(self.mem_region_num as nat, |k: int| k).filter(
                |k: int|
                    self.pa_region@[k].pa_start >= pa && pa < self.pa_region@[k].pa_start
                        + self.pa_region@[k].pa_length,
            ).map_values(
                |k: int|
                    PtAccessRequest {
                        pt_dir: self.pt.unwrap().base_pa,
                        ipa: vstd::wrapping::usize_specs::wrapping_add_signed(
                            pa,
                            self.pa_region@[k].offset,
                        ),
                        len: PAGE_SIZE,
                        ap,
                    },
            ),
    {
        proof {
            lemma_access_requests(
                self.pa_region@,
                self.mem_region_num as int,
                self.pt.unwrap().base_pa,
                pa,
                ap,
            );
        }
        let pt_dir = match &self.pt {
            Some(pt) => pt.base_pa,
            None => 0,
        };
        let mut reqs: Vec<PtAccessRequest> = Vec::new();
        let mut i: usize = 0;
        while i < self.mem_region_num
            invariant
                self.pt is Some,
                pt_dir == self.pt.unwrap().base_pa,
                self.mem_region_num <= self.pa_region@.len(),
                forall|j: int|
                    0 <= j < self.mem_region_num ==> #[trigger] self.pa_region@[j].pa_start
                        + self.pa_region@[j].pa_length <= usize::MAX,
                i <= self.mem_region_num,
                reqs@ == access_requests(self.pa_region@, i as int, pt_dir, pa, ap),
            decreases self.mem_region_num - i,
        {
            let region = self.pa_region[i];
            let start = region.pa_start;
            let end = start + region.pa_length;
            if start >= pa && pa < end {
                let ipa_start = pa.wrapping_add_signed(region.offset);
                reqs.push(PtAccessRequest { pt_dir, ipa: ipa_start, len: PAGE_SIZE, ap });
            }
            i = i + 1;
        }
        reqs
    }

    /// The requests that make every region of the VM read-only, where the VM
    /// sees it.
    pub fn pt_read_only(&self) -> (r: Vec<PtAccessRequest>)
        requires
            self.pt is Some,
            self.mem_region_num <= self.pa_region@.len(),
        ensures
            r@ == read_only_requests(
                self.pa_region@,
                self.mem_region_num as int,
                self.pt.unwrap().base_pa,
            ),
    {
        let pt_dir = match &self.pt {
            Some(pt) => pt.base_pa,
            None => 0,
        };
        let mut reqs: Vec<PtAccessRequest> = Vec::new();
        let mut i: usize = 0;
        while i < self.mem_region_num
            invariant
                self.pt is Some,
                pt_dir == self.pt.unwrap().base_pa,
                self.mem_region_num <= self.pa_region@.len(),
                i <= self.mem_region_num,
                reqs@ == read_only_requests(self.pa_region@, i as int, pt_dir),
            decreases self.mem_region_num - i,
        {
            let region = self.pa_region[i];
            let ipa_start = region.pa_start.wrapping_add_signed(region.offset);
            reqs.push(
                PtAccessRequest {
                    pt_dir,
                    ipa: ipa_start,
                    len: region.pa_length,
                    ap: PTE_S2_FIELD_AP_RO,
                },
            );
            assert(reqs@ =~= read_only_requests(self.pa_region@, i + 1, pt_dir));
            i = i + 1;
        }
        reqs
    }

    /// Gives the VM the page table whose root is the frame `pt_dir_frame`.
    pub fn set_pt(&mut self, pt_dir_frame: PageFrame)
        ensures
            *final(self) == (VmInner {
                pt: Some(PageTable { base_pa: pt_dir_frame.pa }),
                ..*old(self)
            }),
    {
        self.pt = Some(PageTable { base_pa: pt_dir_frame.pa() });
    }

    /// Physical address of the root of the VM's page table.
    pub fn pt_dir(&self) -> (r: usize)
        requires
            self.pt is Some,
        ensures
            r == self.pt.unwrap().base_pa,
    {
        match &self.pt {
            Some(pt) => pt.base_pa,
            None => 0,
        }
    }

    /// Number of VCPUs the VM runs.
    pub fn cpu_num(&self) -> (r: usize)
        ensures
            r == self.cpu_num,
    {
        self.cpu_num
    }

    /// Id of the VM.
    pub fn id(&self) -> (r: usize)
        ensures
            r == self.id,
    {
        self.id
    }

    /// The VM's configuration.
    pub fn config(&self) -> (r: &VmConfigEntry)
        requires
            self.config is Some,
        ensures
            *r == self.config.unwrap(),
    {
        match &self.config {
            Some(c) => c,
            None => vstd::pervasive::unreached(),
        }
    }

    /// Adds a memory region.
    pub fn add_region(&mut self, region: VmPa)
        ensures
            final(self).pa_region@ == old(self).pa_region@.push(region),
            *final(self) == (VmInner { pa_region: final(self).pa_region, ..*old(self) }),
    {
        self.pa_region.push(region);
    }

    /// Number of memory regions added.
    pub fn region_num(&self) -> (r: usize)
        ensures
            r == self.pa_region@.len(),
    {
        self.pa_region.len()
    }

    /// Start of region `idx`.
    pub fn pa_start(&self, idx: usize) -> (r: usize)
        requires
            idx < self.pa_region@.len(),
        ensures
            r == self.pa_region@[idx as int].pa_start,
    {
        self.pa_region[idx].pa_start
    }

    /// Length of region `idx`.
    pub fn pa_length(&self, idx: usize) -> (r: usize)
        requires
            idx < self.pa_region@.len(),
        ensures
            r == self.pa_region@[idx as int].pa_length,
    {
        self.pa_region[idx].pa_length
    }

    /// Offset of region `idx`, as an unsigned word.
    pub fn pa_offset(&self, idx: usize) -> (r: usize)
        requires
            idx < self.pa_region@.len(),
        ensures
            r == self.pa_region@[idx as int].offset as usize,
    {
        self.pa_region[idx].offset as usize
    }

    /// Sets the number of memory regions in use.
    pub fn set_mem_region_num(&mut self, mem_region_num: usize)
        ensures
            *final(self) == (VmInner { mem_region_num, ..*old(self) }),
    {
        self.mem_region_num = mem_region_num;
    }

    /// Number of memory regions in use.
    pub fn mem_region_num(&self) -> (r: usize)
        ensures
            r == self.mem_region_num,
    {
        self.mem_region_num
    }

    /// Handle of the VM's virtual interrupt controller.
    pub fn vgic(&self) -> (r: usize)
        requires
            self.intc_dev_id < self.emu_devs@.len(),
            self.emu_devs@[self.intc_dev_id as int] is Vgic,
        ensures
            self.emu_devs@[self.intc_dev_id as int] == EmuDevs::Vgic(r),
    {
        match self.emu_devs[self.intc_dev_id] {
            EmuDevs::Vgic(v) => v,
            _ => 0,
        }
    }

    /// Whether the VM's interrupt-controller device is a virtual GIC.
    pub fn has_vgic(&self) -> (r: bool)
        ensures
            r == (self.intc_dev_id < self.emu_devs@.len()
                && self.emu_devs@[self.intc_dev_id as int] is Vgic),
    {
        if self.intc_dev_id >= self.emu_devs.len() {
            return false;
        }
        match self.emu_devs[self.intc_dev_id] {
            EmuDevs::Vgic(_) => true,
            _ => false,
        }
    }

    /// Emulated device `dev_id`.
    pub fn emu_dev(&self, dev_id: usize) -> (r: EmuDevs)
        requires
            dev_id < self.emu_devs@.len(),
        ensures
            r == self.emu_devs@[dev_id as int],
    {
        self.emu_devs[dev_id]
    }

    /// The `id`-th (from 0) virtio network device, or `NoDevice`.
    pub fn emu_net_dev(&self, id: usize) -> (r: EmuDevs)
        ensures
            r is VirtioNet || r == EmuDevs::NoDevice,
            forall|i: int|
                0 <= i < self.emu_devs@.len() && (#[trigger] self.emu_devs@[i]) is VirtioNet
                    && self.emu_devs@.take(i).filter(|d: EmuDevs| d is VirtioNet).len() == id
                    ==> r == self.emu_devs@[i],
            (forall|i: int|
                0 <= i < self.emu_devs@.len() && (#[trigger] self.emu_devs@[i]) is VirtioNet
                    ==> self.emu_devs@.take(i).filter(|d: EmuDevs| d is VirtioNet).len() != id)
                ==> r == EmuDevs::NoDevice,
            forall|i: int|
                is_nth_matching(self.emu_devs@, dev_pred(true), id as int, i) ==> r
                    == self.emu_devs@[i],
            (forall|i: int|
                !is_nth_matching(self.emu_devs@, dev_pred(true), id as int, i)) ==> r
                == EmuDevs::NoDevice,
    {
        let r = nth_matching_dev(&self.emu_devs, true, id);
        proof {
            let devs = self.emu_devs@;
            assert forall|i: int| 0 <= i <= devs.len() implies count_matching(
                #[trigger] devs.take(i),
                dev_pred(true),
            ) == devs.take(i).filter(|d: EmuDevs| d is VirtioNet).len() by {
                lemma_count_net(devs.take(i));
            }
            lemma_count_net(devs);
        }
        r
    }

    /// The `id`-th (from 0) virtio block device, or `NoDevice`.
    pub fn emu_blk_dev(&self, id: usize) -> (r: EmuDevs)
        ensures
            r is VirtioBlk || r == EmuDevs::NoDevice,
            forall|i: int|
                0 <= i < self.emu_devs@.len() && (#[trigger] self.emu_devs@[i]) is VirtioBlk
                    && self.emu_devs@.take(i).filter(|d: EmuDevs| d is VirtioBlk).len() == id
                    ==> r == self.emu_devs@[i],
            (forall|i: int|
                0 <= i < self.emu_devs@.len() && (#[trigger] self.emu_devs@[i]) is VirtioBlk
                    ==> self.emu_devs@.take(i).filter(|d: EmuDevs| d is VirtioBlk).len() != id)
                ==> r == EmuDevs::NoDevice,
            forall|i: int|
                is_nth_matching(self.emu_devs@, dev_pred(false), id as int, i) ==> r
                    == self.emu_devs@[i],
            (forall|i: int|
                !is_nth_matching(self.emu_devs@, dev_pred(false), id as int, i)) ==> r
                == EmuDevs::NoDevice,
    {
        let r = nth_matching_dev(&self.emu_devs, false, id);
        proof {
            let devs = self.emu_devs@;
            assert forall|i: int| 0 <= i <= devs.len() implies count_matching(
                #[trigger] devs.take(i),
                dev_pred(false),
            ) == devs.take(i).filter(|d: EmuDevs| d is VirtioBlk).len() by {
                lemma_count_blk(devs.take(i));
            }
        }
        r
    }

    /// The console device the VM sees at `ipa`: the last configured device
    /// there, or `NoDevice` when none is configured there.
    pub fn emu_console_dev(&self, ipa: u64) -> (r: EmuDevs)
        requires
            self.config is Some,
            console_index(self.config.unwrap().emulated_device_list@, ipa) is Some
                ==> console_index(self.config.unwrap().emulated_device_list@, ipa).unwrap()
                < self.emu_devs@.len(),
        ensures
            r == (match console_index(self.config.unwrap().emulated_device_list@, ipa) {
                Some(i) => self.emu_devs@[i],
                None => EmuDevs::NoDevice,
            }),
            (forall|j: int|
                0 <= j < self.config.unwrap().emulated_device_list@.len() ==> (
                #[trigger] self.config.unwrap().emulated_device_list@[j]).base_ipa != ipa as usize)
                ==> r == EmuDevs::NoDevice,
            forall|i: int|
                0 <= i < self.config.unwrap().emulated_device_list@.len() && (
                #[trigger] self.config.unwrap().emulated_device_list@[i]).base_ipa == ipa as usize
                    && (forall|j: int|
                    i < j < self.config.unwrap().emulated_device_list@.len() ==> (
                    #[trigger] self.config.unwrap().emulated_device_list@[j]).base_ipa
                        != ipa as usize) ==> r == self.emu_devs@[i],
    {
        proof {
            let list = self.config.unwrap().emulated_device_list@;
            lemma_last_dev_at(list, ipa as usize as int, list.len() as int);
        }
        match self.console_dev_index(ipa) {
            Some(i) => self.emu_devs[i],
            None => EmuDevs::NoDevice,
        }
    }

    /// Index of the device the VM sees at `ipa`: the last configured device
    /// there, if any.
    pub fn console_dev_index(&self, ipa: u64) -> (r: Option<usize>)
        requires
            self.config is Some,
        ensures
            r matches Some(i) ==> console_index(self.config.unwrap().emulated_device_list@, ipa)
                == Some(i as int),
            r is None ==> console_index(self.config.unwrap().emulated_device_list@, ipa) is None,
            r matches Some(i) ==> i < self.config.unwrap().emulated_device_list@.len()
                && self.config.unwrap().emulated_device_list@[i as int].base_ipa == ipa as usize
                && forall|j: int|
                i < j < self.config.unwrap().emulated_device_list@.len() ==> (
                #[trigger] self.config.unwrap().emulated_device_list@[j]).base_ipa != ipa as usize,
            r is None ==> forall|j: int|
                0 <= j < self.config.unwrap().emulated_device_list@.len() ==> (
                #[trigger] self.config.unwrap().emulated_device_list@[j]).base_ipa != ipa as usize,
    {
        proof {
            let list = self.config.unwrap().emulated_device_list@;
            lemma_last_dev_at(list, ipa as usize as int, list.len() as int);
        }
        let list = &self.config().emulated_device_list;
        let key = ipa as usize;
        let mut found: Option<usize> = None;
        let mut idx: usize = 0;
        while idx < list.len()
            invariant
                *list == self.config.unwrap().emulated_device_list,
                key == ipa as usize,
                idx <= list@.len(),
                match found {
                    Some(f) => last_dev_at(list@, key as int, idx as int) == Some(f as int),
                    None => last_dev_at(list@, key as int, idx as int) is None,
                },
            decreases list@.len() - idx,
        {
            if list[idx].base_ipa == key {
                found = Some(idx);
            }
            idx = idx + 1;
        }
        found
    }

    /// Number of CPUs the VM is configured with.
    pub fn ncpu(&self) -> (r: usize)
        ensures
            r == self.ncpu,
    {
        self.ncpu
    }

    /// Whether interrupt `int_id` belongs to the VM.
    pub fn has_interrupt(&self, int_id: usize) -> (r: bool)
        requires
            self.int_bitmap is Some,
            self.int_bitmap.unwrap().wf(),
            int_id < self.int_bitmap.unwrap()@.len(),
        ensures
            r == self.int_bitmap.unwrap()@[int_id as int],
    {
        match &self.int_bitmap {
            Some(b) => b.get(int_id) != 0,
            None => false,
        }
    }

    /// Whether some emulated device of the VM's configuration raises
    /// interrupt `int_id`.
    pub fn emu_has_interrupt(&self, int_id: usize) -> (r: bool)
        requires
            self.config is Some,
        ensures
            r == exists|i: int|
                0 <= i < self.config.unwrap().emulated_device_list@.len()
                    && #[trigger] self.config.unwrap().emulated_device_list@[i].irq_id == int_id,
    {
        let list = &self.config().emulated_device_list;
        let mut i: usize = 0;
        while i < list.len()
            invariant
                *list == self.config.unwrap().emulated_device_list,
                i <= list@.len(),
                forall|j: int| 0 <= j < i ==> #[trigger] list@[j].irq_id != int_id,
            decreases list@.len() - i,
        {
            if int_id == list[i].irq_id {
                return true;
            }
            i = i + 1;
        }
        false
    }

    /// Whether the VM is ready to run.
    pub fn ready(&self) -> (r: bool)
        ensures
            r == self.ready,
    {
        self.ready
    }

    /// Marks the VM ready to run, or not.
    pub fn set_ready(&mut self, ready: bool)
        ensures
            *final(self) == (VmInner { ready, ..*old(self) }),
    {
        self.ready = ready;
    }

    /// Keeps the frame `pf` that receives a migrated VM's context, and gives
    /// the mapping of that frame at `recv_base` in the master VM.
    pub fn context_vm_migrate_init(&mut self, pf: PageFrame, recv_base: usize) -> (r: SharedMapping)
        ensures
            final(self).migrate_restore_pf@ == old(self).migrate_restore_pf@.push(pf),
            *final(self) == (VmInner {
                migrate_restore_pf: final(self).migrate_restore_pf,
                ..*old(self)
            }),
            r == (SharedMapping { ipa: recv_base, len: PAGE_SIZE, pa: pf.pa, pte: PTE_S2_NORMAL }),
    {
        let m = SharedMapping { ipa: recv_base, len: PAGE_SIZE, pa: pf.pa(), pte: PTE_S2_NORMAL };
        self.migrate_restore_pf.push(pf);
        m
    }

    /// Keeps the frame `pf` that the VM's context is saved into: the VM
    /// context in its first half and the context of VCPU 0 in its second
    /// half; the frame is mapped read-only at `send_base` in the master VM.
    pub fn context_vm_migrate_save(&mut self, pf: PageFrame, send_base: usize) -> (r: (
        MigrateContext,
        SharedMapping,
    ))
        requires
            old(self).vcpu_list@.len() > 0,
            pf.pa + PAGE_SIZE / 2 <= usize::MAX,
        ensures
            final(self).migrate_save_pf@ == old(self).migrate_save_pf@.push(pf),
            *final(self) == (VmInner { migrate_save_pf: final(self).migrate_save_pf, ..*old(self) }),
            r.0 == (MigrateContext {
                vcpu: old(self).vcpu_list@[0],
                vm_ctx_pa: pf.pa,
                vcpu_ctx_pa: (pf.pa + PAGE_SIZE / 2) as usize,
            }),
            r.1 == (SharedMapping { ipa: send_base, len: PAGE_SIZE, pa: pf.pa, pte: PTE_S2_RO }),
    {
        let vcpu = self.vcpu_list[0];
        let ctx = MigrateContext { vcpu, vm_ctx_pa: pf.pa(), vcpu_ctx_pa: pf.pa() + PAGE_SIZE / 2 };
        let m = SharedMapping { ipa: send_base, len: PAGE_SIZE, pa: pf.pa(), pte: PTE_S2_RO };
        self.migrate_save_pf.push(pf);
        (ctx, m)
    }

    /// Where the context of a migrated VM is restored from: the first frame
    /// kept for it, VM context first, then the context of VCPU 0.
    pub fn context_vm_migrate_restore(&self) -> (r: MigrateContext)
        requires
            self.vcpu_list@.len() > 0,
            self.migrate_restore_pf@.len() > 0,
            self.migrate_restore_pf@[0].pa + PAGE_SIZE / 2 <= usize::MAX,
        ensures
            r == (MigrateContext {
                vcpu: self.vcpu_list@[0],
                vm_ctx_pa: self.migrate_restore_pf@[0].pa,
                vcpu_ctx_pa: (self.migrate_restore_pf@[0].pa + PAGE_SIZE / 2) as usize,
            }),
    {
        let vcpu = self.vcpu_list[0];
        let pa = self.migrate_restore_pf[0].pa();
        MigrateContext { vcpu, vm_ctx_pa: pa, vcpu_ctx_pa: pa + PAGE_SIZE / 2 }
    }

    /// Where the next shared memory goes in the master VM.
    pub fn share_mem_base(&self) -> (r: usize)
        ensures
            r == self.share_mem_base,
    {
        self.share_mem_base
    }

    /// Moves the shared memory base past `len` more bytes.
    pub fn add_share_mem_base(&mut self, len: usize)
        requires
            old(self).share_mem_base + len <= usize::MAX,
        ensures
            *final(self) == (VmInner {
                share_mem_base: (old(self).share_mem_base + len) as usize,
                ..*old(self)
            }),
    {
        self.share_mem_base = self.share_mem_base + len;
    }
}

/// Adds a VM `vm` with id `id` to the VM list, unless a VM with that index is
/// already there.
pub fn push_vm<T>(vm_list: &mut Vec<T>, id: usize, vm: T) -> (r: Result<(), ()>)
    ensures
        id < old(vm_list)@.len() ==> r is Err && final(vm_list)@ == old(vm_list)@,
        id >= old(vm_list)@.len() ==> r is Ok && final(vm_list)@ == old(vm_list)@.push(vm),
{
    if id < vm_list.len() {
        return Err(());
    }
    vm_list.push(vm);
    Ok(())
}

/// VM `id` of the list, if there is one.
pub fn vm<T>(vm_list: &Vec<T>, id: usize) -> (r: Option<&T>)
    ensures
        id < vm_list@.len() ==> r == Some(&vm_list@[id as int]),
        id >= vm_list@.len() ==> r is None,
{
    if id < vm_list.len() {
        Some(&vm_list[id])
    } else {
        None
    }
}

/// Number of VMs in the list.
pub fn vm_list_size<T>(vm_list: &Vec<T>) -> (r: usize)
    ensures
        r == vm_list@.len(),
{
    vm_list.len()
}

/// The physical address that intermediate physical address `ipa` of `vm`
/// stands for: 0 for 0, otherwise the translation by the first region in use
/// that holds it; `None` when no region holds it.
pub fn vm_ipa2pa(vm: &VmInner, ipa: usize) -> (r: Option<usize>)
    requires
        vm.mem_region_num <= vm.pa_region@.len(),
    ensures
        ipa == 0 ==> r == Some(0usize),
        ipa != 0 ==> r == ipa2pa_from(vm.pa_region@, 0, vm.mem_region_num as int, ipa),
        ipa != 0 ==> forall|k: int|
            0 <= k < vm.mem_region_num && (#[trigger] vm.pa_region@[k]).pa_start <= addr_minus(
                ipa,
                vm.pa_region@[k].offset,
            ) < vm.pa_region@[k].pa_start + vm.pa_region@[k].pa_length && (forall|j: int|
                0 <= j < k ==> !((#[trigger] vm.pa_region@[j]).pa_start <= addr_minus(
                    ipa,
                    vm.pa_region@[j].offset,
                ) < vm.pa_region@[j].pa_start + vm.pa_region@[j].pa_length)) ==> r == Some(
                addr_minus(ipa, vm.pa_region@[k].offset),
            ),
        ipa != 0 && (forall|k: int|
            0 <= k < vm.mem_region_num ==> !((#[trigger] vm.pa_region@[k]).pa_start <= addr_minus(
                ipa,
                vm.pa_region@[k].offset,
            ) < vm.pa_region@[k].pa_start + vm.pa_region@[k].pa_length)) ==> r is None,
{
    proof {
        lemma_ipa2pa_first_region(vm.pa_region@, 0, vm.mem_region_num as int, ipa);
    }
    if ipa == 0 {
        return Some(0);
    }
    let mut i: usize = 0;
    while i < vm.mem_region_num()
        invariant
            ipa != 0,
            vm.mem_region_num <= vm.pa_region@.len(),
            i <= vm.mem_region_num,
            ipa2pa_from(vm.pa_region@, 0, vm.mem_region_num as int, ipa) == ipa2pa_from(
                vm.pa_region@,
                i as int,
                vm.mem_region_num as int,
                ipa,
            ),
        decreases vm.mem_region_num - i,
    {
        let region = vm.pa_region[i];
        let pa = sub_offset(ipa, region.offset);
        if in_range(pa, vm.pa_start(i), vm.pa_length(i)) {
            proof {
                lemma_ipa2pa_first_region(vm.pa_region@, 0, vm.mem_region_num as int, ipa);
            }
            return Some(pa);
        }
        i = i + 1;
    }
    None
}

/// After a device is installed at `idx`, device `idx` is that device and
/// every device that was there before, at another index, is still there.
pub proof fn lemma_set_emu_devs_then_emu_dev(
    before: Seq<EmuDevs>,
    after: Seq<EmuDevs>,
    idx: int,
    emu: EmuDevs,
)
    requires
        0 <= idx,
        idx < before.len() ==> after == before.update(idx, emu),
        idx >= before.len() ==> after == before + Seq::new(
            (idx - before.len()) as nat,
            |i: int| EmuDevs::NoDevice,
        ) + seq![emu],
    ensures
        idx < after.len(),
        after[idx] == emu,
        forall|j: int| 0 <= j < before.len() && j != idx ==> #[trigger] after[j] == before[j],
        forall|j: int| before.len() <= j < after.len() && j != idx ==> #[trigger] after[j] == EmuDevs::NoDevice,
{
}

/// Only network devices count toward the index of a network device.
pub proof fn lemma_count_net(s: Seq<EmuDevs>)
    ensures
        count_matching(s, dev_pred(true)) == s.filter(|d: EmuDevs| d is VirtioNet).len(),
    decreases s.len(),
{
    reveal(Seq::filter);
    if s.len() > 0 {
        lemma_count_net(s.drop_last());
    }
}

/// Only block devices count toward the index of a block device.
pub proof fn lemma_count_blk(s: Seq<EmuDevs>)
    ensures
        count_matching(s, dev_pred(false)) == s.filter(|d: EmuDevs| d is VirtioBlk).len(),
    decreases s.len(),
{
    reveal(Seq::filter);
    if s.len() > 0 {
        lemma_count_blk(s.drop_last());
    }
}

/// The device found at `ipa` among `list[0..n]` is configured at `ipa`, and
/// no later one is; none is found when no device is configured there.
pub proof fn lemma_last_dev_at(list: Seq<VmEmulatedDeviceConfig>, ipa: int, n: int)
    requires
        0 <= n <= list.len(),
    ensures
        last_dev_at(list, ipa, n) matches Some(i) ==> 0 <= i < n && list[i].base_ipa == ipa
            && forall|j: int| i < j < n ==> (#[trigger] list[j]).base_ipa != ipa,
        last_dev_at(list, ipa, n) is None ==> forall|j: int|
            0 <= j < n ==> (#[trigger] list[j]).base_ipa != ipa,
    decreases n,
{
    if n > 0 {
        lemma_last_dev_at(list, ipa, n - 1);
    }
}

/// Each region is tested against its own bounds: the translation is that
/// of the first region among `regions[i..n]` that holds its own translation
/// of `ipa`, and there is none when no region does.
pub proof fn lemma_ipa2pa_first_region(regions: Seq<VmPa>, i: int, n: int, ipa: usize)
    requires
        0 <= i <= n <= regions.len(),
    ensures
        forall|k: int|
            i <= k < n && (#[trigger] regions[k]).pa_start <= addr_minus(ipa, regions[k].offset)
                < regions[k].pa_start + regions[k].pa_length && (forall|j: int|
                i <= j < k ==> !((#[trigger] regions[j]).pa_start <= addr_minus(
                    ipa,
                    regions[j].offset,
                ) < regions[j].pa_start + regions[j].pa_length)) ==> ipa2pa_from(
                regions,
                i,
                n,
                ipa,
            ) == Some(addr_minus(ipa, regions[k].offset)),
        (forall|k: int|
            i <= k < n ==> !((#[trigger] regions[k]).pa_start <= addr_minus(ipa, regions[k].offset)
                < regions[k].pa_start + regions[k].pa_length)) ==> ipa2pa_from(regions, i, n, ipa)
            is None,
    decreases n - i,
{
    if i < n {
        lemma_ipa2pa_first_region(regions, i + 1, n, ipa);
        assert forall|k: int|
            i <= k < n && (#[trigger] regions[k]).pa_start <= addr_minus(ipa, regions[k].offset)
                < regions[k].pa_start + regions[k].pa_length && (forall|j: int|
                i <= j < k ==> !((#[trigger] regions[j]).pa_start <= addr_minus(
                    ipa,
                    regions[j].offset,
                ) < regions[j].pa_start + regions[j].pa_length)) implies ipa2pa_from(
            regions,
            i,
            n,
            ipa,
        ) == Some(addr_minus(ipa, regions[k].offset)) by {
            if k > i {
                let r0 = regions[i];
                assert(!(r0.pa_start <= addr_minus(ipa, r0.offset) < r0.pa_start + r0.pa_length));
            }
        }
        if forall|k: int|
            i <= k < n ==> !((#[trigger] regions[k]).pa_start <= addr_minus(ipa, regions[k].offset)
                < regions[k].pa_start + regions[k].pa_length) {
            let r0 = regions[i];
            assert(!(r0.pa_start <= addr_minus(ipa, r0.offset) < r0.pa_start + r0.pa_length));
        }
    }
}

/// The access-permission requests are one per region in use that starts at
/// or above `pa` and ends above it, in region order, each on the page at
/// `pa` shifted by that region's offset.
pub proof fn lemma_access_requests(regions: Seq<VmPa>, n: int, pt_dir: usize, pa: usize, ap: usize)
    requires
        0 <= n,
    ensures
        access_requests(regions, n, pt_dir, pa, ap) == Seq::new(n as nat, |k: int| k).filter(
            |k: int| regions[k].pa_start >= pa && pa < regions[k].pa_start + regions[k].pa_length,
        ).map_values(
            |k: int|
                PtAccessRequest {
                    pt_dir,
                    ipa: vstd::wrapping::usize_specs::wrapping_add_signed(pa, regions[k].offset),
                    len: PAGE_SIZE,
                    ap,
                },
        ),
    decreases n,
{
    let p = |k: int| regions[k].pa_start >= pa && pa < regions[k].pa_start + regions[k].pa_length;
    let f = |k: int|
        PtAccessRequest {
            pt_dir,
            ipa: vstd::wrapping::usize_specs::wrapping_add_signed(pa, regions[k].offset),
            len: PAGE_SIZE,
            ap,
        };
    reveal(Seq::filter);
    if n > 0 {
        lemma_access_requests(regions, n - 1, pt_dir, pa, ap);
        let idx = Seq::new(n as nat, |k: int| k);
        assert(idx.drop_last() =~= Seq::new((n - 1) as nat, |k: int| k));
        let sub = idx.drop_last().filter(p);
        if p(n - 1) {
            assert(idx.filter(p) == sub.push(n - 1));
            assert(sub.push(n - 1).map_values(f) =~= sub.map_values(f).push(f(n - 1)));
        } else {
            assert(idx.filter(p) == sub);
        }
    }
}

} // verus!
