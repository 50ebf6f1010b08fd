//! The per-VM interface table: state, type, master CPU, MAC address,
//! inter-VM communication arguments and the dirty-page map used for migration.
use vstd::prelude::*;

use crate::arch::PAGE_SIZE;
use crate::bitmap::{count_set, words_for, FlexBitmap};
use crate::mm::PageFrame;

verus! {

/// Number of VM interface slots.
pub const VM_NUM_MAX: usize = 8;

/// Dirty-page count above which a migration round copies memory again.
pub const DIRTY_MEM_THRESHOLD: usize = 0x200;

/// Life-cycle state of a VM.
#[derive(Clone, Copy, Debug, PartialEq, Eq, Structural)]
pub enum VmState {
    VmInv,
    VmPending,
    VmActive,
}

/// Kind of a VM: a guest OS, or a bare-metal application.
#[derive(Clone, Copy, Debug, PartialEq, Eq, Structural)]
pub enum VmType {
    VmTOs,
    VmTBma,
}

impl VmType {
    /// The VM type numbered `value`: 0 is an OS, 1 a bare-metal application.
    pub fn from_usize(value: usize) -> (r: VmType)
        requires
            value < 2,
        ensures
            value == 0 ==> r == VmType::VmTOs,
            value == 1 ==> r == VmType::VmTBma,
    {
        if value == 0 {
            VmType::VmTOs
        } else {
            VmType::VmTBma
        }
    }
}

/// What the hypervisor keeps of one VM outside the VM itself.
pub struct VmInterface {
    pub master_cpu_id: usize,
    pub state: VmState,
    pub vm_type: VmType,
    pub mac: [u8; 6],
    pub ivc_arg: usize,
    pub ivc_arg_ptr: usize,
    pub mem_map: Option<FlexBitmap>,
    pub mem_map_cache: Option<PageFrame>,
}

impl VmInterface {
    /// The interface of a VM that is not set up yet: pending, bare-metal,
    /// everything else zero or absent.
    pub fn default() -> (r: VmInterface)
        ensures
            r.master_cpu_id == 0,
            r.state == VmState::VmPending,
            r.vm_type == VmType::VmTBma,
            r.mac@ == seq![0u8, 0u8, 0u8, 0u8, 0u8, 0u8],
            r.ivc_arg == 0,
            r.ivc_arg_ptr == 0,
            r.mem_map is None,
            r.mem_map_cache is None,
    {
        let r = VmInterface {
            master_cpu_id: 0,
            state: VmState::VmPending,
            vm_type: VmType::VmTBma,
            mac: [0u8; 6],
            ivc_arg: 0,
            ivc_arg_ptr: 0,
            mem_map: None,
            mem_map_cache: None,
        };
        assert(r.mac@ =~= seq![0u8, 0u8, 0u8, 0u8, 0u8, 0u8]);
        r
    }

    /// A dirty-page map, when there is one, is well formed.
    pub open spec fn wf(&self) -> bool {
        self.mem_map matches Some(m) ==> m.wf()
    }
}

/// The interface slots of all VMs, indexed by VM id.
pub struct VmIfList {
    entries: Vec<VmInterface>,
}

/// The slot `e` with its state replaced.
pub open spec fn with_state(e: VmInterface, s: VmState) -> VmInterface {
    VmInterface { state: s, ..e }
}

/// The slot `e` with its type replaced.
pub open spec fn with_type(e: VmInterface, t: VmType) -> VmInterface {
    VmInterface { vm_type: t, ..e }
}

/// The slot `e` with its master CPU replaced.
pub open spec fn with_cpu_id(e: VmInterface, c: usize) -> VmInterface {
    VmInterface { master_cpu_id: c, ..e }
}

/// The slot `e` with its MAC address replaced.
pub open spec fn with_mac(e: VmInterface, mac: [u8; 6]) -> VmInterface {
    VmInterface { mac: mac, ..e }
}

/// The slot `e` with its communication argument replaced.
pub open spec fn with_ivc_arg(e: VmInterface, a: usize) -> VmInterface {
    VmInterface { ivc_arg: a, ..e }
}

/// The slot `e` with its communication argument address replaced.
pub open spec fn with_ivc_arg_ptr(e: VmInterface, a: usize) -> VmInterface {
    VmInterface { ivc_arg_ptr: a, ..e }
}

/// The slot `e` with its dirty-page map cache replaced.
pub open spec fn with_mem_map_cache(e: VmInterface, pf: PageFrame) -> VmInterface {
    VmInterface { mem_map_cache: Some(pf), ..e }
}

/// `after` is `before` with nothing changed but the dirty-page map, whose
/// bits became `bits`.
pub open spec fn mem_map_becomes(before: VmInterface, after: VmInterface, bits: Seq<bool>) -> bool {
    &&& after.master_cpu_id == before.master_cpu_id
    &&& after.state == before.state
    &&& after.vm_type == before.vm_type
    &&& after.mac == before.mac
    &&& after.ivc_arg == before.ivc_arg
    &&& after.ivc_arg_ptr == before.ivc_arg_ptr
    &&& after.mem_map_cache == before.mem_map_cache
    &&& after.mem_map is Some
    &&& after.mem_map.unwrap().wf()
    &&& after.mem_map.unwrap()@ == bits
}

/// The bytes of a dirty-page map, to be copied to the physical address `dst_pa`.
pub struct MemMapCopy {
    pub dst_pa: usize,
    pub words: Vec<u64>,
}

impl VmIfList {
    /// One slot per VM id, each well formed.
    pub closed spec fn wf(&self) -> bool {
        &&& self.entries@.len() == VM_NUM_MAX
        &&& forall|i: int| 0 <= i < VM_NUM_MAX ==> (#[trigger] self.entries@[i]).wf()
    }

    /// The slots.
    pub closed spec fn entries(&self) -> Seq<VmInterface> {
        self.entries@
    }

    /// A well-formed table has one well-formed slot per VM id.
    pub proof fn lemma_wf(&self)
        requires
            self.wf(),
        ensures
            self.entries().len() == VM_NUM_MAX,
            forall|i: int| 0 <= i < VM_NUM_MAX ==> (#[trigger] self.entry(i)).wf(),
    {
        assert forall|i: int| 0 <= i < VM_NUM_MAX implies (#[trigger] self.entry(i)).wf() by {
            assert(self.entries@[i].wf());
        }
    }

    /// Slot `id`.
    pub open spec fn entry(&self, id: int) -> VmInterface {
        self.entries()[id]
    }

    /// Slot `vm_id`, to read.
    pub fn slot(&self, vm_id: usize) -> (r: &VmInterface)
        requires
            self.wf(),
            vm_id < VM_NUM_MAX,
        ensures
            *r == self.entry(vm_id as int),
            r.wf(),
    {
        &self.entries[vm_id]
    }

    /// All slots in their default state.
    pub fn new() -> (r: VmIfList)
        ensures
            r.wf(),
            r.entries().len() == VM_NUM_MAX,
            forall|i: int|
                0 <= i < VM_NUM_MAX ==> {
                    let e = #[trigger] r.entry(i);
                    &&& e.master_cpu_id == 0
                    &&& e.state == VmState::VmPending
                    &&& e.vm_type == VmType::VmTBma
                    &&& e.mac@ == seq![0u8, 0u8, 0u8, 0u8, 0u8, 0u8]
                    &&& e.ivc_arg == 0
                    &&& e.ivc_arg_ptr == 0
                    &&& e.mem_map is None
                    &&& e.mem_map_cache is None
                },
    {
        let mut entries: Vec<VmInterface> = Vec::new();
        let mut i: usize = 0;
        while i < VM_NUM_MAX
            invariant
                i <= VM_NUM_MAX,
                entries@.len() == i,
                forall|j: int|
                    0 <= j < i ==> {
                        let e = #[trigger] entries@[j];
                        &&& e.master_cpu_id == 0
                        &&& e.state == VmState::VmPending
                        &&& e.vm_type == VmType::VmTBma
                        &&& e.mac@ == seq![0u8, 0u8, 0u8, 0u8, 0u8, 0u8]
                        &&& e.ivc_arg == 0
                        &&& e.ivc_arg_ptr == 0
                        &&& e.mem_map is None
                        &&& e.mem_map_cache is None
                    },
            decreases VM_NUM_MAX - i,
        {
            entries.push(VmInterface::default());
            i = i + 1;
        }
        VmIfList { entries }
    }
}

/// Sets the state of VM `vm_id`.
pub fn vm_if_set_state(vm_if_list: &mut VmIfList, vm_id: usize, vm_state: VmState)
    requires
        old(vm_if_list).wf(),
        vm_id < VM_NUM_MAX,
    ensures
        final(vm_if_list).wf(),
        final(vm_if_list).entries() == old(vm_if_list).entries().update(
            vm_id as int,
            with_state(old(vm_if_list).entry(vm_id as int), vm_state),
        ),
{
    proof {
        assert(vm_if_list.entries@[vm_id as int].wf());
    }
    let e = &mut vm_if_list.entries[vm_id];
    e.state = vm_state;
    assert(vm_if_list.entries@ =~= old(vm_if_list).entries@.update(
        vm_id as int,
        with_state(old(vm_if_list).entry(vm_id as int), vm_state),
    ));
}

/// State of VM `vm_id`.
pub fn vm_if_get_state(vm_if_list: &VmIfList, vm_id: usize) -> (r: VmState)
    requires
        vm_if_list.wf(),
        vm_id < VM_NUM_MAX,
    ensures
        r == vm_if_list.entry(vm_id as int).state,
{
    vm_if_list.entries[vm_id].state
}

/// Sets the type of VM `vm_id`.
pub fn vm_if_set_type(vm_if_list: &mut VmIfList, vm_id: usize, vm_type: VmType)
    requires
        old(vm_if_list).wf(),
        vm_id < VM_NUM_MAX,
    ensures
        final(vm_if_list).wf(),
        final(vm_if_list).entries() == old(vm_if_list).entries().update(
            vm_id as int,
            with_type(old(vm_if_list).entry(vm_id as int), vm_type),
        ),
{
    proof {
        assert(vm_if_list.entries@[vm_id as int].wf());
    }
    let e = &mut vm_if_list.entries[vm_id];
    e.vm_type = vm_type;
    assert(vm_if_list.entries@ =~= old(vm_if_list).entries@.update(
        vm_id as int,
        with_type(old(vm_if_list).entry(vm_id as int), vm_type),
    ));
}

/// Type of VM `vm_id`.
pub fn vm_if_get_type(vm_if_list: &VmIfList, vm_id: usize) -> (r: VmType)
    requires
        vm_if_list.wf(),
        vm_id < VM_NUM_MAX,
    ensures
        r == vm_if_list.entry(vm_id as int).vm_type,
{
    vm_if_list.entries[vm_id].vm_type
}

/// Sets the master CPU of VM `vm_id`.
pub fn vm_if_set_cpu_id(vm_if_list: &mut VmIfList, vm_id: usize, master_cpu_id: usize)
    requires
        old(vm_if_list).wf(),
        vm_id < VM_NUM_MAX,
    ensures
        final(vm_if_list).wf(),
        final(vm_if_list).entries() == old(vm_if_list).entries().update(
            vm_id as int,
            with_cpu_id(old(vm_if_list).entry(vm_id as int), master_cpu_id),
        ),
{
    proof {
        assert(vm_if_list.entries@[vm_id as int].wf());
    }
    let e = &mut vm_if_list.entries[vm_id];
    e.master_cpu_id = master_cpu_id;
    assert(vm_if_list.entries@ =~= old(vm_if_list).entries@.update(
        vm_id as int,
        with_cpu_id(old(vm_if_list).entry(vm_id as int), master_cpu_id),
    ));
}

/// Master CPU of VM `vm_id`.
pub fn vm_if_get_cpu_id(vm_if_list: &VmIfList, vm_id: usize) -> (r: usize)
    requires
        vm_if_list.wf(),
        vm_id < VM_NUM_MAX,
    ensures
        r == vm_if_list.entry(vm_id as int).master_cpu_id,
{
    vm_if_list.entries[vm_id].master_cpu_id
}

/// Sets the MAC address of VM `vm_id`.
pub fn vm_if_set_mac(vm_if_list: &mut VmIfList, vm_id: usize, mac: [u8; 6])
    requires
        old(vm_if_list).wf(),
        vm_id < VM_NUM_MAX,
    ensures
        final(vm_if_list).wf(),
        final(vm_if_list).entries() == old(vm_if_list).entries().update(
            vm_id as int,
            with_mac(old(vm_if_list).entry(vm_id as int), mac),
        ),
{
    proof {
        assert(vm_if_list.entries@[vm_id as int].wf());
    }
    let e = &mut vm_if_list.entries[vm_id];
    e.mac = mac;
    assert(vm_if_list.entries@ =~= old(vm_if_list).entries@.update(
        vm_id as int,
        with_mac(old(vm_if_list).entry(vm_id as int), mac),
    ));
}

/// MAC address of VM `vm_id`.
pub open spec fn mac_of(vm_if_list: &VmIfList, vm_id: usize) -> Seq<u8> {
    vm_if_list.entry(vm_id as int).mac@
}

/// Whether the first six bytes of `frame` are the address `mac`.
pub open spec fn frame_has_mac(mac: Seq<u8>, frame: Seq<u8>) -> bool {
    frame.len() >= 6 && forall|i: int| 0 <= i < 6 ==> mac[i] == frame[i]
}

/// `frame` differs from `mac` within its first bytes.
pub open spec fn frame_differs_early(mac: Seq<u8>, frame: Seq<u8>) -> bool {
    exists|i: int| 0 <= i < frame.len() && mac[i] != frame[i]
}

/// Whether the first six bytes of `frame` are the MAC address of VM `vm_id`.
/// The bytes are compared in order and the first difference decides, so a
/// frame shorter than six bytes must differ within its own bytes.
pub fn vm_if_cmp_mac(vm_if_list: &VmIfList, vm_id: usize, frame: &[u8]) -> (r: bool)
    requires
        vm_if_list.wf(),
        vm_id < VM_NUM_MAX,
        frame@.len() < 6 ==> frame_differs_early(mac_of(vm_if_list, vm_id), frame@),
    ensures
        r == frame_has_mac(mac_of(vm_if_list, vm_id), frame@),
{
    let mac = &vm_if_list.entries[vm_id].mac;
    let mut i: usize = 0;
    while i < 6
        invariant
            i <= 6,
            mac@ == mac_of(vm_if_list, vm_id),
            forall|j: int| 0 <= j < i ==> j < frame@.len() && mac@[j] == frame@[j],
            frame@.len() < 6 ==> frame_differs_early(mac@, frame@),
        decreases 6 - i,
    {
        if i >= frame.len() {
            assert(false);
        }
        if mac[i] != frame[i] {
            return false;
        }
        i = i + 1;
    }
    true
}

/// Sets the communication argument of VM `vm_id`.
pub fn vm_if_set_ivc_arg(vm_if_list: &mut VmIfList, vm_id: usize, ivc_arg: usize)
    requires
        old(vm_if_list).wf(),
        vm_id < VM_NUM_MAX,
    ensures
        final(vm_if_list).wf(),
        final(vm_if_list).entries() == old(vm_if_list).entries().update(
            vm_id as int,
            with_ivc_arg(old(vm_if_list).entry(vm_id as int), ivc_arg),
        ),
{
    proof {
        assert(vm_if_list.entries@[vm_id as int].wf());
    }
    let e = &mut vm_if_list.entries[vm_id];
    e.ivc_arg = ivc_arg;
    assert(vm_if_list.entries@ =~= old(vm_if_list).entries@.update(
        vm_id as int,
        with_ivc_arg(old(vm_if_list).entry(vm_id as int), ivc_arg),
    ));
}

/// Communication argument of VM `vm_id`.
pub fn vm_if_ivc_arg(vm_if_list: &VmIfList, vm_id: usize) -> (r: usize)
    requires
        vm_if_list.wf(),
        vm_id < VM_NUM_MAX,
    ensures
        r == vm_if_list.entry(vm_id as int).ivc_arg,
{
    vm_if_list.entries[vm_id].ivc_arg
}

/// Sets the address of the communication argument of VM `vm_id`.
pub fn vm_if_set_ivc_arg_ptr(vm_if_list: &mut VmIfList, vm_id: usize, ivc_arg_ptr: usize)
    requires
        old(vm_if_list).wf(),
        vm_id < VM_NUM_MAX,
    ensures
        final(vm_if_list).wf(),
        final(vm_if_list).entries() == old(vm_if_list).entries().update(
            vm_id as int,
            with_ivc_arg_ptr(old(vm_if_list).entry(vm_id as int), ivc_arg_ptr),
        ),
{
    proof {
        assert(vm_if_list.entries@[vm_id as int].wf());
    }
    let e = &mut vm_if_list.entries[vm_id];
    e.ivc_arg_ptr = ivc_arg_ptr;
    assert(vm_if_list.entries@ =~= old(vm_if_list).entries@.update(
        vm_id as int,
        with_ivc_arg_ptr(old(vm_if_list).entry(vm_id as int), ivc_arg_ptr),
    ));
}

/// Address of the communication argument of VM `vm_id`.
pub fn vm_if_ivc_arg_ptr(vm_if_list: &VmIfList, vm_id: usize) -> (r: usize)
    requires
        vm_if_list.wf(),
        vm_id < VM_NUM_MAX,
    ensures
        r == vm_if_list.entry(vm_id as int).ivc_arg_ptr,
{
    vm_if_list.entries[vm_id].ivc_arg_ptr
}

/// Gives VM `vm_id` a fresh dirty-page map of `len` pages, all clean.
pub fn vm_if_init_mem_map(vm_if_list: &mut VmIfList, vm_id: usize, len: usize)
    requires
        old(vm_if_list).wf(),
        vm_id < VM_NUM_MAX,
    ensures
        final(vm_if_list).wf(),
        final(vm_if_list).entries().len() == VM_NUM_MAX,
        forall|i: int|
            0 <= i < VM_NUM_MAX && i != vm_id ==> #[trigger] final(vm_if_list).entry(i)
                == old(vm_if_list).entry(i),
        mem_map_becomes(
            old(vm_if_list).entry(vm_id as int),
            final(vm_if_list).entry(vm_id as int),
            Seq::new(len as nat, |i: int| false),
        ),
{
    let m = FlexBitmap::new(len);
    proof {
        assert(vm_if_list.entries@[vm_id as int].wf());
    }
    let e = &mut vm_if_list.entries[vm_id];
    e.mem_map = Some(m);
}

/// Records the page frame that receives the dirty-page map of VM `vm_id`.
pub fn vm_if_set_mem_map_cache(vm_if_list: &mut VmIfList, vm_id: usize, pf: PageFrame)
    requires
        old(vm_if_list).wf(),
        vm_id < VM_NUM_MAX,
    ensures
        final(vm_if_list).wf(),
        final(vm_if_list).entries() == old(vm_if_list).entries().update(
            vm_id as int,
            with_mem_map_cache(old(vm_if_list).entry(vm_id as int), pf),
        ),
{
    proof {
        assert(vm_if_list.entries@[vm_id as int].wf());
    }
    let e = &mut vm_if_list.entries[vm_id];
    e.mem_map_cache = Some(pf);
    assert(vm_if_list.entries@ =~= old(vm_if_list).entries@.update(
        vm_id as int,
        with_mem_map_cache(old(vm_if_list).entry(vm_id as int), pf),
    ));
}

/// The page frame that receives the dirty-page map of VM `vm_id`, if any.
pub fn vm_if_mem_map_cache(vm_if_list: &VmIfList, vm_id: usize) -> (r: Option<PageFrame>)
    requires
        vm_if_list.wf(),
        vm_id < VM_NUM_MAX,
    ensures
        r == vm_if_list.entry(vm_id as int).mem_map_cache,
{
    vm_if_list.entries[vm_id].mem_map_cache
}

/// Marks every page of VM `vm_id` dirty.
pub fn vm_if_dirty_mem_map(vm_if_list: &mut VmIfList, vm_id: usize)
    requires
        old(vm_if_list).wf(),
        vm_id < VM_NUM_MAX,
        old(vm_if_list).entry(vm_id as int).mem_map is Some,
    ensures
        final(vm_if_list).wf(),
        final(vm_if_list).entries().len() == VM_NUM_MAX,
        forall|i: int|
            0 <= i < VM_NUM_MAX && i != vm_id ==> #[trigger] final(vm_if_list).entry(i)
                == old(vm_if_list).entry(i),
        mem_map_becomes(
            old(vm_if_list).entry(vm_id as int),
            final(vm_if_list).entry(vm_id as int),
            Seq::new(old(vm_if_list).entry(vm_id as int).mem_map.unwrap()@.len(), |i: int| true),
        ),
{
    proof {
        assert(vm_if_list.entries@[vm_id as int].wf());
    }
    let e = &mut vm_if_list.entries[vm_id];
    match &mut e.mem_map {
        Some(m) => m.init_dirty(),
        None => {},
    }
}

/// Marks page `bit` of VM `vm_id` dirty.
pub fn vm_if_set_mem_map(vm_if_list: &mut VmIfList, vm_id: usize, bit: usize)
    requires
        old(vm_if_list).wf(),
        vm_id < VM_NUM_MAX,
        old(vm_if_list).entry(vm_id as int).mem_map is Some,
        bit < old(vm_if_list).entry(vm_id as int).mem_map.unwrap()@.len(),
    ensures
        final(vm_if_list).wf(),
        final(vm_if_list).entries().len() == VM_NUM_MAX,
        forall|i: int|
            0 <= i < VM_NUM_MAX && i != vm_id ==> #[trigger] final(vm_if_list).entry(i)
                == old(vm_if_list).entry(i),
        mem_map_becomes(
            old(vm_if_list).entry(vm_id as int),
            final(vm_if_list).entry(vm_id as int),
            old(vm_if_list).entry(vm_id as int).mem_map.unwrap()@.update(bit as int, true),
        ),
{
    proof {
        assert(vm_if_list.entries@[vm_id as int].wf());
    }
    let e = &mut vm_if_list.entries[vm_id];
    match &mut e.mem_map {
        Some(m) => m.set(bit, true),
        None => {},
    }
}

/// Marks every page of VM `vm_id` clean.
pub fn vm_if_clear_mem_map(vm_if_list: &mut VmIfList, vm_id: usize)
    requires
        old(vm_if_list).wf(),
        vm_id < VM_NUM_MAX,
        old(vm_if_list).entry(vm_id as int).mem_map is Some,
    ensures
        final(vm_if_list).wf(),
        final(vm_if_list).entries().len() == VM_NUM_MAX,
        forall|i: int|
            0 <= i < VM_NUM_MAX && i != vm_id ==> #[trigger] final(vm_if_list).entry(i)
                == old(vm_if_list).entry(i),
        mem_map_becomes(
            old(vm_if_list).entry(vm_id as int),
            final(vm_if_list).entry(vm_id as int),
            Seq::new(old(vm_if_list).entry(vm_id as int).mem_map.unwrap()@.len(), |i: int| false),
        ),
{
    proof {
        assert(vm_if_list.entries@[vm_id as int].wf());
    }
    let e = &mut vm_if_list.entries[vm_id];
    match &mut e.mem_map {
        Some(m) => m.clear(),
        None => {},
    }
}

/// Takes the dirty-page map of VM `vm_id` for copying into its cache frame:
/// returns the frame's address and the map's words as they were, and marks
/// every page clean.
pub fn vm_if_copy_mem_map(vm_if_list: &mut VmIfList, vm_id: usize) -> (r: MemMapCopy)
    requires
        old(vm_if_list).wf(),
        vm_id < VM_NUM_MAX,
        old(vm_if_list).entry(vm_id as int).mem_map is Some,
        old(vm_if_list).entry(vm_id as int).mem_map_cache is Some,
    ensures
        r.dst_pa == old(vm_if_list).entry(vm_id as int).mem_map_cache.unwrap().pa,
        r.words@ == old(vm_if_list).entry(vm_id as int).mem_map.unwrap().words(),
        final(vm_if_list).wf(),
        final(vm_if_list).entries().len() == VM_NUM_MAX,
        forall|i: int|
            0 <= i < VM_NUM_MAX && i != vm_id ==> #[trigger] final(vm_if_list).entry(i)
                == old(vm_if_list).entry(i),
        mem_map_becomes(
            old(vm_if_list).entry(vm_id as int),
            final(vm_if_list).entry(vm_id as int),
            Seq::new(old(vm_if_list).entry(vm_id as int).mem_map.unwrap()@.len(), |i: int| false),
        ),
{
    proof {
        assert(vm_if_list.entries@[vm_id as int].wf());
    }
    let e = &mut vm_if_list.entries[vm_id];
    let dst_pa = match &e.mem_map_cache {
        Some(pf) => pf.pa(),
        None => 0,
    };
    let mut words: Vec<u64> = Vec::new();
    match &mut e.mem_map {
        Some(m) => {
            words = vstd::slice::slice_to_vec(m.slice());
            m.clear();
        },
        None => {},
    }
    MemMapCopy { dst_pa, words }
}

/// Number of pages the dirty-page map of VM `vm_id` occupies:
/// eight bytes per word, over the page size.
pub fn vm_if_mem_map_page_num(vm_if_list: &VmIfList, vm_id: usize) -> (r: usize)
    requires
        vm_if_list.wf(),
        vm_id < VM_NUM_MAX,
        vm_if_list.entry(vm_id as int).mem_map is Some,
    ensures
        r == 8 * words_for(vm_if_list.entry(vm_id as int).mem_map.unwrap()@.len() as int)
            / PAGE_SIZE as int,
{
    proof {
        assert(vm_if_list.entries@[vm_id as int].wf());
    }
    let e = &vm_if_list.entries[vm_id];
    match &e.mem_map {
        Some(m) => {
            let n = m.vec_len();
            let ghost len = m@.len();
            proof {
                m.lemma_layout();
            }
            assert(8 * n <= usize::MAX) by (nonlinear_arith)
                requires
                    n == (len + 63) / 64,
                    len <= usize::MAX,
                    usize::MAX >= 0xffff_ffff,
            ;
            8 * n / PAGE_SIZE
        },
        None => 0,
    }
}

/// Number of dirty pages of VM `vm_id`.
pub fn vm_if_mem_map_dirty_sum(vm_if_list: &VmIfList, vm_id: usize) -> (r: usize)
    requires
        vm_if_list.wf(),
        vm_id < VM_NUM_MAX,
        vm_if_list.entry(vm_id as int).mem_map is Some,
    ensures
        r == count_set(vm_if_list.entry(vm_id as int).mem_map.unwrap()@),
{
    proof {
        assert(vm_if_list.entries@[vm_id as int].wf());
    }
    let e = &vm_if_list.entries[vm_id];
    match &e.mem_map {
        Some(m) => m.sum(),
        None => 0,
    }
}

/// Writing one slot of a well-formed interface table changes that slot
/// only, and reading it back gives what was written.
pub proof fn lemma_vm_if_write_isolated(before: VmIfList, after: VmIfList, id: int, e: VmInterface)
    requires
        0 <= id < VM_NUM_MAX,
        before.wf(),
        after.entries() == before.entries().update(id, e),
    ensures
        after.entry(id) == e,
        after.entries().len() == VM_NUM_MAX,
        forall|j: int| 0 <= j < VM_NUM_MAX && j != id ==> #[trigger] after.entry(j) == before.entry(j),
{
    before.lemma_wf();
}

/// Each field a setter writes reads back as written, whatever other slots are
/// written afterwards: after `vm_if_set_state(id, s)` the state of slot `id`
/// is `s`, and likewise for the type, master CPU, MAC address, communication
/// argument and its address, and the dirty-page map cache; a write to
/// another slot leaves slot `id` as it was.
pub proof fn lemma_vm_if_read_after_write(
    l0: VmIfList,
    id: int,
    other: int,
    e2: VmInterface,
    l2: VmIfList,
    s: VmState,
    t: VmType,
    c: usize,
    mac: [u8; 6],
    a: usize,
    pf: PageFrame,
)
    requires
        0 <= id < VM_NUM_MAX,
        0 <= other < VM_NUM_MAX,
        other != id,
        l0.wf(),
        l2.entries() == l0.entries().update(other, e2),
    ensures
        with_state(l0.entry(id), s).state == s,
        with_type(l0.entry(id), t).vm_type == t,
        with_cpu_id(l0.entry(id), c).master_cpu_id == c,
        with_mac(l0.entry(id), mac).mac == mac,
        with_ivc_arg(l0.entry(id), a).ivc_arg == a,
        with_ivc_arg_ptr(l0.entry(id), a).ivc_arg_ptr == a,
        with_mem_map_cache(l0.entry(id), pf).mem_map_cache == Some(pf),
        l2.entry(id) == l0.entry(id),
{
    l0.lemma_wf();
}

} // verus!
