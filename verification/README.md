# shyper_vm

VM management of an AArch64 hypervisor, verified with Verus.

- `src/` — the verified library:
  - `vm_if` — the per-VM interface table (state, type, master CPU, MAC,
    inter-VM arguments, dirty-page map for migration);
  - `bitmap` — a bitmap of any length stored in 64-bit words;
  - `vm` — the running state of one VM (regions, VCPUs, emulated devices,
    interrupt bitmap, migration frames), CPU-id and CPU-mask translation,
    address translation, and the VM list;
  - `iov` — virtio scatter/gather vectors and the planning of copies between them;
  - `barrier` — the counting CPU barrier;
  - `arch` — platform constants and the interrupt-controller bring-up plan;
  - `mm` — physical page frames.
- `app/` — the locked, shared and hardware-facing side: global tables behind
  `spin` locks, the `Vm` and `VirtioIov` handles, the barrier spin loop over a
  `volatile` read, and the calls into the platform layer.
- `tests/` — tests on concrete values.
