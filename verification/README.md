# seaweed_volume

The RDMA read path of a SeaweedFS volume server, verified with Verus.

`src/` decides: which needle a fid names, where its payload lies, which reads a request comes to,
what a client is answered, what the server tells of itself. Every function there has a contract.
`app/` acts: it holds the locks, opens the files, serves the sockets, and asks `src/` what to do
next.

| module | subject |
| --- | --- |
| `rdma::parse_fid` | fids, and the `storage::file_id` grammar under them |
| `rdma::needle_source` | locating and opening needles, planning reads of their payload |
| `rdma::pread` | reading a payload from its data file, guarded by the needle's cookie |
| `rdma::listener` | the conversation with one client, and what it puts on the wire |
| `rdma_stats`, `version`, `provenance` | what the server reports, and what its build records |
| `storage` | the volume store, as far as the read path needs it |
| `json` | building `serde_json` values; the only trusted code |
| `text` | searching, trimming, reading and writing numbers |
