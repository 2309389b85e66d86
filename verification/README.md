# vmm

A virtual machine monitor for small guests: devices, guest memory, virtual CPUs and the API that
configures them.

- `src/` is the library. It decides and computes, and Verus proves that it does what its contracts
  say. What the host answers (files, sockets, the hypervisor) comes in as plain values, and what is to
  be done about it goes out as plain values.
- `app/` asks the host and carries out what the library decides.
- `tests/` runs the library on concrete values.

The library is laid out by subject:

- `vstate`: guest memory, memory slots, dumps of memory, virtual CPUs, interrupt routes and the
  allocators of identifiers and addresses.
- `devices::virtio`: queues, scattered buffers, the MMIO transport, and the block, network, balloon,
  persistent memory, entropy and socket devices, with what is saved of each.
- `device_manager`, `builder`, `acpi`, `arch`, `cpu_config`: how a machine is put together.
- `resources`, `vmm_config`: how it is configured.
- `api_server`, `api_server_adapter`, `rpc_interface`, `http`: how it is controlled.
- `mmds`, `dumbo`: the metadata service that the guest can ask.
- `io_uring`, `rate_limiter`, `template`, `snapshot_editor`, `utils`: what the others rest on.

Proof functions whose names start with `law_` state what holds of the library as a whole.

Each item marked `external_body`, and each type declared by `external_type_specification`, speaks of a
function or a type of another crate or of the standard library. Its doc comment says what is claimed.
