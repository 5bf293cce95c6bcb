# ipp_printer_app

An IPP Everywhere framework for CUPS-driverless printer applications, with
its logic verified by Verus.

- `src/` — the verified library: printer-state-reason flags, printer and job
  records, the job registry with monotonic ids, the IPP attribute sets a
  printer advertises, request checks and operation dispatch (including the
  IPP wire format through the `ipp` crate), the spooler's retry decisions,
  the status poller's decisions, bootstrap of the printer list, the status
  page, and the DNS-SD TXT records. Each public function carries a contract;
  the library-wide properties are stated as proof functions next to the
  code they are about.
- `app/` — the runtime around it: the axum listener, the print-job worker
  and status-poller tasks, the mDNS daemon, and JSON state persistence.
- `tests/` — scenario tests run against the compiled library.
