# tt-metal

A code generator and launch planner for Tenstorrent devices, written in Verus.

A compute kernel goes through these steps:

1. `kind` finds out which of the supported shapes the kernel has, `compile` accepts or
   refuses it and chooses the data format and the tile size.
2. `reader`, `writer`, `scalar_writer`, `warp`, `dataflow`, `dialect`, `wmma` and `kernel`
   write the C++ sources of the three device kernels: reader, compute and writer.
3. `launch` binds the sources to the buffers of a launch, `program` plans the circular
   buffers, the cores and the runtime arguments of each core.
4. `storage`, `command` and `stream` move bytes between host and device and keep the order
   of the work; `context` and `server` tie the steps together.

`bundle` and `metalium` are a second backend, which makes a bundle of sources out of a
kernel and hands it to a bridge. `topology` holds the positions that a kernel sees.

The functions of `src/` have contracts that Verus proves, but for two kinds. The few
functions marked `#[verifier::external_body]`, and the one `assume_specification`, have
contracts that are believed: each names the function of another crate or of the standard
library that it stands for. The method of `MetaliumBridge`, which users implement, has no
contract. Functions whose names begin with `law_` state what holds of several functions
together.

- `src/`: the library
- `tests/`: tests of the compiled library
- `app/`: the runtimes around the library. `app/tt/driver.rs` holds all calls into the host
  API of the device.
