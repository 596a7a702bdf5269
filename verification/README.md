# syncdaq_web

A web console for a sampling device with eight data ports: it finds devices, sends them commands,
shows their state, and captures synchronised data from all ports.

- `src/` is the library: what the console decides and computes, with contracts that Verus checks.
  - `text`, `address`, `float`, `clock`: numbers, addresses and names as text; floating-point values
    by their bit patterns.
  - `control`: control messages, what they are labelled, and what the replies say.
  - `histogram`, `spectrum`: histograms of raw samples; how samples are cut into transform blocks and
    how the bins are ordered.
  - `capture`, `run`, `captures`: one capture from the first query to its result, and all captures by
    name.
  - `config`, `settings`, `devices`: what is kept, and how.
  - `api`, `init`, `push`: how requests are answered, a device is initialised and news is made.
- `app/` is the program around it: HTTP, web sockets, files, threads, UDP and the transforms
  themselves. `app/device.rs` alone speaks to the device's own library.
- `tests/` runs the library on concrete values.

The console listens on `127.0.0.1:3088` unless `SYNCDAQ_WEB_ADDR` says otherwise.
