# friidump

Dumps GameCube and Wii discs with a supported DVD drive (Hitachi MN103S
based drives such as the GCC-4160N/4240N, read with the fast methods 11 and
12), and unscrambles raw images into ISO images.

The library in `src/` is verified with Verus:

- `ecma267`: the EDC and the scrambling LFSR of ECMA-267.
- `unscrambler`: descrambling of 16-sector blocks with a seed cache; the
  descrambling inverts the scrambling (`lemma_scramble_roundtrip`) and a
  seed once found is reused from the cache (`lemma_seed_reused`); a raw
  image file is unscrambled block by block by `FileUnscramble`, whose output
  is the blocks' outputs in order (`file_run`, `lemma_file_run_prefix`).
- `cache`: the ring of cached blocks (`lemma_cache_read_after_write`).
- `drive`: command blocks, the drive profiles, INQUIRY and memory dumps over
  any `ScsiDevice`.
- `read`, `disc`: read methods and their parameters, the calibration, the
  block reads of methods 11 and 12 (what they cache is stated over the
  drive's recorded answers: `read11_evidence`, `read12_evidence`), and the
  detection of the disc type from the drive's answers (`detect_outcome`).
- `metadata`: sector 0 (game ID, region, maker, title).
- `hasher`: CRC32, MD5 and SHA-1 of the dumped bytes.
- `cli`, `dumper`, `log`: the command line, the decisions of a dump (start,
  end, journal, progress), the dump itself sector by sector (`DumpRun`,
  whose digests cover exactly what was written) and the format of log lines.

`app/` is the program around it: the Linux SCSI generic device, the files,
the progress display and `main`.
