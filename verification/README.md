# kubecove

The core of a Kubernetes desktop backend, written in Verus: pod logs, metrics and exec
sessions, with contracts for everything that is decided on the way.

`src/` is the library. Every function in it is verified; what is taken on trust of other
crates stands in a few small items that say so in their doc comments.

| module | what it holds |
| --- | --- |
| `text`, `utf8`, `lists`, `json` | strings, UTF-8 that arrives in pieces, small data types |
| `error` | kinds of failures, and how failures of a cluster are classified |
| `validation` | values that go into request paths |
| `logs`, `log_stream` | log lines within a budget, and the stream that carries them |
| `quantity`, `metrics`, `workload` | quantities, samples, and their sums per workload |
| `listing`, `resource_metrics` | the calls for the metrics of a cluster and their report |
| `exec_queue`, `registry` | exec sessions, their input queue and its budget |
| `exec_message`, `exec_output`, `exec_io`, `exec_session` | a session from start to end |

Work that waits for the outside (a client, a channel, a stream) is written as a step
function: it takes how the last action went and says what to do next. `app/` runs those
steps with real clients and tasks, and `tests/` runs them on concrete values.

Numbers with a fraction do not occur in the library. Functions over them take their
operations as an argument (`quantity::Numbers`) and hold for any type of numbers whose
operations always give the same result for the same arguments.
