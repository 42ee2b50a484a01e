# aether_radio

A software model of a radio data plane: an FPGA emits IQ symbols as framed
packets, a transport checks their sequence and deadline, a NIC delays them by
its DMA latency, and a GPU ring processes them, while metrics, traces, health
and recovery policies observe the run.

The library under `src/` is written in Verus. Every public function states what
it returns or changes in `requires`/`ensures` over abstract views (`Seq`, `Map`,
integers), and the laws that span several calls are public proof functions
named `law_*` next to the functions they speak of. The methods of the traits
that stand for pluggable parts (`IQSource`, `SlotScheduler`, `PacketIO`,
`MemoryBackend`, `GpuBackend`, the transport traits) declare no `ensures` of
their own; each implementation in the library carries its
contract, and `IQSource` is left to its implementors:

| module | what it holds |
|--------|---------------|
| `types`, `protocol` | packets, the 32-byte frame header, framing and its round trip |
| `transport_check`, `transport`, `transport_sim` | sequence and deadline checks, stream and link life cycles |
| `fpga`, `fault` | slot timing and packetization, fault injection |
| `nic`, `gpu`, `gpu_ring`, `memory` | DMA pipeline, GPU buffer life cycle, buffer memory |
| `datapath`, `host_recv`, `smoke`, `link_rx` | the pipelines that join the stages, the receive queue and shared-memory ring layout |
| `metrics`, `trace`, `health`, `recovery`, `prometheus`, `ops_config` | observability |
| `bench`, `acceptance`, `soak`, `fault_drill` | benchmark statistics and gates |
| `text` | the string helpers the parsers and renderers use |

Two functions are trusted rather than proved: `text::trim` (over `str::trim`)
and `bench::sort_ascending` (over `slice::sort_unstable`); their contracts say
what the standard library documents.

`app/` is the command-line program around the library: configuration files
(YAML), sockets, shared memory, event logs, JSON reports, floating-point
models (Ethernet serialization, throughput) and the CLI itself.

`tests/` exercises the library from outside with concrete scenarios.
