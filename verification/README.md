# all_smi

Deep telemetry for NVIDIA GPUs: activity metrics from NVML performance
monitoring, a DCGM companion backend that fills what NVML lacks, XID and ECC
event counts, and a Prometheus exposition of all of it.

The rules are a Verus library under `src/`: every function there carries a
contract, and Verus proves it. `app/` is ordinary Rust around the library: it
queries NVML, loads and calls the DCGM plugin, runs the event watcher, and does
the floating-point arithmetic.

| Module | What it decides |
|--------|-----------------|
| `hardware`, `hardware_laws` | the hardware-detail exposition, and what holds of every one |
| `exposition`, `families`, `metrics` | headers, metric families and the text format |
| `sample_summary`, `order` | percentiles and the maximum of utilization samples |
| `nvidia_extras` | what plain NVML readings mean |
| `nvidia_gpm` | which samples are compared, and what their readings mean |
| `nvidia_xid` | which events count, under which code, and how often they occurred |
| `dcgm`, `path_text`, `dcgm_plugin_api` | where the plugin is looked for and what is accepted as one |
| `dcgm_merge` | how DCGM samples go into GPU rows |
| `dcgm_values`, `session`, `bindings` | DCGM field values and the life of a DCGM session |
| `plugin` | the statuses and buffers of the plugin's functions |
| `types`, `number`, `text`, `text_map` | records, numbers by bit pattern, decimal text, a map with string keys |

A number is held by its bit pattern together with the decimal text under which
it is published, so that comparing, clamping, truncating and ranking are
integer arithmetic.

What the library takes on trust stands in the doc comments above the items
marked `external_body` or `assume_specification`: three functions of the
standard library, and operations on the bit masks of `nvml-wrapper`.
