# Flow Sensor

A network flow sensor built on eBPF: one structured event per TCP connection,
with process attribution, round-trip times on every ACK, retransmits told apart
by reason, TLS and HTTP context, and causal chains across processes.

## Layout

- `src/` — the verified library. Everything that is decided or computed is here:
  what each probe does with what it read, the layout of events, the ClientHello
  and HTTP parsers, filters, enrichment, and what the output says. Functions carry
  contracts, and laws that span several of them are public proof functions.
- `app/` — the daemon and the kernel-side programs. They read sockets, tables, the
  ring buffer and `/proc`, print, and leave the rest to the library. Ratios are
  written in floating point here.
- `tests/` — the library run on concrete values.

## Run

```bash
sudo flow-sensor                         # pretty output, all flows
sudo flow-sensor --output json           # one JSON object per flow
sudo flow-sensor --retransmits-only      # only flows with retransmits
sudo flow-sensor --ports 443             # only flows involving these ports
sudo flow-sensor --min-duration-ms 100   # ignore short connections
sudo flow-sensor --sample-rate 10        # one chain in ten
```

## Trusted

The proofs rest on two facts about the standard library: `std::str::from_utf8`
gives text exactly for valid UTF-8, and `String::push` appends one character.
