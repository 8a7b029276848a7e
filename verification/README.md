# setochka

A server for the GRiD Compass: the GRiDLink transport, VIPC messages and the
services behind them (the VFS, GRiDMail, the broadcast stub and the Sentry
account directory), with everything that decides what goes over the wire
verified by Verus.

## Layout

- `src/` — the verified library.
  - Wire formats: `raw_frame` (byte stuffing and CRC), `frame`, `data_frame`,
    `vipc`, `tlv`, `wire`, `cursor`, `bytes`.
  - Services: `session` (routing and the per-session dispatcher), `vfs`
    and `vfs_protocol`, `postoffice` and `mail_protocol`, `broadcast`,
    `sentry`.
  - Storage: `path` (GRiD paths), `fs_layout` (where paths live on the
    disks), `fsproxy` (attachments, descriptors, status), `listing`
    (directory listings and their pages), `grid_file` (the on-disk file
    layout), `file_ids`, `bitmap`, `file_name`, `date`, `descriptor`,
    `backend`.
  - `environment` (settings) and `frontend` (what the operator pages say).
- `app/` — the program: sockets, SQLite, host files and extended
  attributes, logging. It hands the library plain values and carries out
  what the library asks for.
- `tests/` — tests of the library.

Every public function states its result in its contract; the laws that tie
functions together (round trips of the codecs and of the record walk, the
need for an open object before descriptor operations, the reuse of connection ids,
the paging of listings, the Sentry's scope and escalation rules, the
reassembly of mail fragments) are proof functions next to the code they
speak of.
