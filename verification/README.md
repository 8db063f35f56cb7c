# diskclone

Windows bootable disk clone via VSS (Volume Shadow Copy Service). Creates a
consistent snapshot of an entire OS disk (EFI, bootloader and recovery
partitions included) and streams it to a file, a local disk, or a remote system
via SSH. The image keeps every byte at the offset that it has on the disk.

The library in `src/` decides what is read, written, asked of VSS and shown, and
is verified with [Verus](https://github.com/verus-lang/verus). The program in
`app/` carries that out: it talks to Windows, to SSH and to the user.

## Layout

| Module | What it holds |
|---|---|
| `disk` | disks and partitions, how they are opened and read, drive layouts |
| `image_builder`, `stream` | where each byte of the image comes from, and the clone as a machine from events to operations |
| `image_laws`, `sector_laws` | what a clone makes of a disk: each byte in its place, whole sectors only |
| `diagram`, `diagram_laws` | the diagram of a disk, and that it shows the image |
| `vss`, `snapshot_setup` | volumes, their shadow copies, and how snapshots are taken |
| `local_sink`, `ssh_sink` | the places that an image goes to |
| `cli`, `clone_job`, `visual` | the command line and the window |
| `diagnostic` | the report on what an image is built from |
| `text`, `wide`, `double` | text, UTF-16, and sizes as floating point shows them |

Laws that hold of the library as a whole are public proof functions whose names
start with `law_`.

## Usage

```
diskclone [OPTIONS] --disk N (--output FILE | --target-disk N | --ssh USER@HOST [--remote-path PATH])
```

`diskclone-visual` is the same program with a window. Both need Windows 10 or 11
and Administrator privileges.

## License

Apache-2.0
