//! Constants of the AArch64 platform: translation granule, stage-2 page
//! table entry fields, GIC CPU-interface control bits and interrupt numbers.
use vstd::prelude::*;

verus! {

/// Size of a translation granule.
pub const PAGE_SIZE: usize = 0x1000;

/// Stage-2 entry that maps a block.
pub const PTE_BLOCK: usize = 0b01;

/// Stage-2 memory attribute: inner write-back cacheable.
pub const PTE_S2_FIELD_MEM_ATTR_NORMAL_INNER_WRITE_BACK_CACHEABLE: usize = 0b11 << 2;

/// Stage-2 memory attribute: outer write-back cacheable.
pub const PTE_S2_FIELD_MEM_ATTR_NORMAL_OUTER_WRITE_BACK_CACHEABLE: usize = 0b11 << 4;

/// Stage-2 access permission: read only.
pub const PTE_S2_FIELD_AP_RO: usize = 0b01 << 6;

/// Stage-2 access permission: read and write.
pub const PTE_S2_FIELD_AP_RW: usize = 0b11 << 6;

/// Stage-2 shareability: inner shareable.
pub const PTE_S2_FIELD_SH_INNER: usize = 0b11 << 8;

/// Stage-2 access flag.
pub const PTE_S2_FIELD_AF: usize = 1 << 10;

/// Stage-2 entry of normal, cacheable, writable memory.
pub const PTE_S2_NORMAL: usize = PTE_S2_FIELD_MEM_ATTR_NORMAL_INNER_WRITE_BACK_CACHEABLE
    | PTE_S2_FIELD_MEM_ATTR_NORMAL_OUTER_WRITE_BACK_CACHEABLE | PTE_S2_FIELD_AP_RW
    | PTE_S2_FIELD_SH_INNER | PTE_S2_FIELD_AF | PTE_BLOCK;

/// Stage-2 entry of normal, cacheable, read-only memory.
pub const PTE_S2_RO: usize = PTE_S2_FIELD_MEM_ATTR_NORMAL_INNER_WRITE_BACK_CACHEABLE
    | PTE_S2_FIELD_MEM_ATTR_NORMAL_OUTER_WRITE_BACK_CACHEABLE | PTE_S2_FIELD_AP_RO
    | PTE_S2_FIELD_SH_INNER | PTE_S2_FIELD_AF | PTE_BLOCK;

/// GIC CPU interface control: enable signalling of interrupts.
pub const GICC_CTLR_EN_BIT: usize = 0x1;

/// GIC CPU interface control: split priority drop and deactivation.
pub const GICC_CTLR_EOIMODENS_BIT: usize = 0x200;

/// Number of software-generated interrupts.
pub const GIC_SGIS_NUM: usize = 16;

/// Interrupt of the hypervisor timer.
pub const INTERRUPT_IRQ_HYPERVISOR_TIMER: usize = 26;

/// Interrupt used for inter-processor signalling.
pub const INTERRUPT_IRQ_IPI: usize = 1;

/// Priority given to every interrupt the hypervisor enables.
pub const GIC_INT_PRIO: usize = 0x7f;

/// Distributor settings of one interrupt: enabled or not, its priority, and
/// the mask of CPU interfaces it is routed to.
#[derive(Clone, Copy, Debug)]
pub struct GicdIntConfig {
    pub int_id: usize,
    pub enable: bool,
    pub prio: usize,
    pub target: usize,
}

/// A software-generated interrupt `ipi_id` sent to CPU interface `cpu_if`.
#[derive(Clone, Copy, Debug)]
pub struct SgiRequest {
    pub cpu_if: usize,
    pub ipi_id: usize,
}

/// What bringing up the interrupt controller on one CPU does: the global
/// distributor set-up (on the boot CPU only), then the CPU interface, then the
/// maintenance interrupt is reserved and enabled with the given settings.
#[derive(Clone, Copy, Debug)]
pub struct InterruptInitPlan {
    pub global_init: bool,
    pub maintenance_int_id: usize,
    pub enable: GicdIntConfig,
}

/// Distributor settings that enable (`en`) or disable interrupt `int_id` and
/// route it to the CPU interface `cpu_if` of the calling CPU.
pub fn interrupt_arch_enable(cpu_if: usize, int_id: usize, en: bool) -> (r: GicdIntConfig)
    requires
        cpu_if < usize::BITS,
    ensures
        r.int_id == int_id,
        r.enable == en,
        r.prio == GIC_INT_PRIO,
        r.target == 1usize << cpu_if,
{
    GicdIntConfig { int_id, enable: en, prio: GIC_INT_PRIO, target: 1usize << cpu_if }
}

/// The software-generated interrupt to send, if `ipi_id` is one; any other
/// number sends nothing.
pub fn interrupt_arch_ipi_send(cpu_if: usize, ipi_id: usize) -> (r: Option<SgiRequest>)
    ensures
        ipi_id < GIC_SGIS_NUM ==> r == Some(SgiRequest { cpu_if, ipi_id }),
        ipi_id >= GIC_SGIS_NUM ==> r is None,
{
    if ipi_id < GIC_SGIS_NUM {
        Some(SgiRequest { cpu_if, ipi_id })
    } else {
        None
    }
}

/// The interrupt bring-up of CPU `cpu_id`, whose interface is `cpu_if`, with
/// the platform's maintenance interrupt `maintenance_int_id`.
pub fn interrupt_arch_init(cpu_id: usize, cpu_if: usize, maintenance_int_id: usize) -> (r:
    InterruptInitPlan)
    requires
        cpu_if < usize::BITS,
    ensures
        r.global_init == (cpu_id == 0),
        r.maintenance_int_id == maintenance_int_id,
        r.enable.int_id == maintenance_int_id,
        r.enable.enable,
        r.enable.prio == GIC_INT_PRIO,
        r.enable.target == 1usize << cpu_if,
{
    let enable = interrupt_arch_enable(cpu_if, maintenance_int_id, true);
    InterruptInitPlan { global_init: cpu_id == 0, maintenance_int_id, enable }
}

} // verus!
