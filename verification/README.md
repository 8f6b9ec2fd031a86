# datavfs

A virtual file system over local directories and remote object stores (FTP, Google Drive,
S3 through OpenDAL).

- `src/` is the verified core, written in Verus. It decides everything that does not need
  the disk or the network: how store paths are joined onto a local root and read back
  (`path`), how paths are written as remote keys (`remote`), which service a remote operator is
  built for and which layers wrap it (`layered`), how throttle settings and
  service settings are read (`throttle`, `services`), which capabilities a store has and
  how a request is refused (`operator`), how disk usage is computed (`local`), and the
  steps of `ensure_file`.
- `app/` is ordinary Rust around it: the asynchronous and blocking operators, the tokio
  file I/O, the OpenDAL requests, disk statistics from `sysinfo`, and serializable copies of
  the settings.
- `tests/` runs the core with the real outside crates linked.
