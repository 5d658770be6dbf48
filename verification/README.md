# mtpoe

PoE port control for MikroTik boards running OpenWrt (ATtiny V2/V3, SAMD20 V4),
with per-port *force* (power without 802.3af/at negotiation).

The library in `src/` holds the logic with its contracts, proved by Verus:

- `spi` — the ten-byte command and reply frames, their Dallas/Maxim CRC-8, the
  checks on a reply and the retry decisions of a query;
- `poe` — port modes and their names, chassis/hardware port numbering, the
  decoding of status, temperature and state words, and the plan for applying a
  configuration (only changed ports are written where the state can be read back);
- `uci` — the `uci` runs that read or seed `/etc/config/mtpoe`, planned one at a
  time, and the reading of their answers;
- `board` — the known boards and how the running one is recognised;
- `rawsend` — hex input and output for raw transfers and probes;
- `command` — when the command loop stops, gives up or repeats;
- `output` — report records and their text rendering;
- `text` — decimal/hex rendering, Unicode whitespace and trimming.

`app/` is the command-line tool around it: argument parsing, the spidev device
(ioctl), running `uci`, reading the board name, JSON output and the voltage
reading (floating point).

Known gaps:

- `probe` sends every command as given: no list of opcodes that flash or reset
  the controller is known, so none is refused and there is no
  `--force-dangerous` switch.
- The per-port voltage and power of active ports are not read yet: port
  listings show the current only (the rendering takes the suffix once it is
  there).
