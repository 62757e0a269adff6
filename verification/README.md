# sdbootutil_fs

The file logic of a systemd-boot maintenance tool, verified with Verus.

- `src/` is the verified library. Bootloader lookup and version reading
  (`boot`, `version`), root-snapshot identification (`snapshot`), rollback
  cleanup (`rollback`), the file model they work on (`fsview`), and the text
  helpers under them (`number`, `text`, `path`).
- `app/` does the real I/O. It checks which of the paths the library names
  exist, reads them into an `FsView`, runs the library, and carries out the
  actions it returns. It also queries btrfs for the root subvolume and
  creates temporary directories.
- `tests/` runs the library on concrete file views.
