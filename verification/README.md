# openshell-apple-container

A compute driver that runs OpenShell sandboxes with Apple's
[`container`](https://github.com/apple/container) command line tool, as
lightweight Linux VMs on macOS with Apple Silicon. What the driver decides is
verified with Verus; what it does to the outside world is not.

## The library (`src/`)

| Module | Purpose |
|--------|---------|
| `cli` | Command lines for the `container` tool, and what its output means |
| `config` | `AppleContainerComputeConfig` and its defaults |
| `driver` | Labels, environment, mounts and image of a sandbox's container |
| `creation` | Creating a sandbox: pull policy, token file, run, clean-up |
| `deletion` | Stopping and deleting a sandbox |
| `observe` | Reading containers as sandboxes; listing them |
| `watcher` | What changed from one list of containers to the next |
| `compute` | The sandboxes and events that the gateway exchanges with the driver |
| `error` | Errors and the gRPC statuses that answer them |
| `auth` | Who calls the gateway, and which methods a sandbox may call |
| `text`, `string_map` | Text and string-keyed maps, as the contracts speak of them |

Creation and deletion are machines. Each says what to do next, and takes what
came of it. The functions named `law_..` state what holds across several calls:
that a subscriber which follows a watch knows every sandbox and its status, that
a sandbox's labels are read back from its container, that a creation ends, that
a failed run leaves no token behind.

## The driver at work (`app/`)

`app/` runs the commands, keeps the token files, decodes the JSON and streams
the events.

## Prerequisites

- macOS 26 (Tahoe) or later on Apple Silicon
- Apple `container` CLI, with its system service running: `container system start`
- A statically linked Linux arm64 `openshell-sandbox` binary

## Configuration

```toml
[openshell.drivers.apple-container]
supervisor_bin   = "/path/to/openshell-sandbox"  # Required unless the image holds it
default_image    = "ubuntu:latest"
host_gateway_ip  = "192.168.64.1"
```

`supervisor_bin` is mounted at `/openshell-sandbox`, which is what a container
runs. The driver starts a container without it too; the image then has to hold
that binary itself.
