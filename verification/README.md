# Tunelith

Tuners for the Japanese digital broadcasting systems, ISDB-T, ISDB-S and ISDB-S3: what
drives the chips of the USB tuners, what shares tuners among programs, and what the
programs say to one another, with contracts proved by Verus.

- `src/` is the library. Everything in it is verified, but for one call into
  `getrandom` that draws the tokens streams are taken by.
  - `types`, `error`, `traits`, `usb`, `text`, `lists`, `paths`: what the rest is made of.
  - `it930x`, `tc90522`, `r850`, `rt710`, `cxd2856er`, `cxd2858er`, `shadow`: the bridge,
    the demodulators and the tuners, by what they are sent and what is made of what they
    answer.
  - `board`, `px4`, `pxmlt`, `single`, `models`, `stream`: the device models, and how the
    stream of a bridge is split among the tuners it carries.
  - `dvb`, `pt4k`, `bda`, `ks`, `align`: tuners the system drives.
  - `proto`, `daemon`, `client`, `listener`, `registry`: tunelithd and its clients.
  - `cli`, `config`, `bondriver`, `browser`, `mock`: the programs around them.
- `tests/` runs the library, the chips and the bridge being stood in for.
- `app/` is the programs: what reads, writes, waits and calls the system, around the
  library.

A contract on a chip says what goes over its bus, in order, and what comes of each
answer. The bus, the USB transport and what sets a device model apart are traits, for the
program to implement.
