# bids_smemlib

Shared-memory data exchange between a BVE / OpenBVE train simulator and its
plug-ins: named byte regions, typed values and arrays stored in them, and the
fixed records that both sides share. The library is verified with Verus.

## Layout

- `src/smem/` — the byte-region interface `SMemIF` (a backend opens or
  creates a named region and reads and writes its bytes) with its typed
  layer `SMemIFExt`, the in-memory backend `InMemorySMemIF`, bounds
  checking, and the helpers for the Windows backend (page rounding, UTF-16
  names).
- `src/pod/` — `PodValue`: values stored as a fixed number of bytes, with
  the native-endian encodings of the integer scalars.
- `src/types/` — the shared records (`BIDSSharedMemoryData`, `Spec`,
  `State`, `Hand`, `OpenD`, `PreTrainD`, `Hands`), their byte offsets and
  the region names. Floating-point fields are kept as their IEEE-754 bit
  patterns.
- `src/controller/` — `SMemCtrler` (one record with a cache) and
  `ArrayDataSMemCtrler` (a length-prefixed array in one page; an array
  that does not fit keeps its length in `"{name}_length"` and its elements
  in `"{name}_{count}"`). Every controller, and `SMemLib` and `CtrlInput`,
  is generic over the backend; the default is `InMemorySMemIF`.
- `src/smem_lib.rs`, `src/ctrl_input.rs` — the regions used by the
  simulator (`SMemLib`) and by the input plug-in (`CtrlInput`).
- `app/` — what stays outside verification: the Windows file-mapping
  backend (`WindowsSMemIF`, with `WindowsSMemLib` and `WindowsCtrlInput`
  over it, shared between processes), the float-typed copies of the
  records, and the error type with its `Display`.

Each public function states in its contract what it returns and how it
changes the regions. Where a region has to be opened, the backend decides:
`SMemIF::spec_can_open` says for which names and sizes it succeeds (for
`InMemorySMemIF`, every size that fits in the address space), and the
constructors and array operations state that they succeed where it does.
The laws that span calls (a value read back from where it was written, a
write leaving other bytes alone, an array and its elements read back after
a write, the key array round trip) are public proof functions.
