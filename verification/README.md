# pos_hardware

Building blocks for point-of-sale hardware: ESC/POS printing over raw TCP,
USB and the Windows print spooler, cash-drawer kicks, USB printer
enumeration, and physical/virtual keyboard handling.

- `src/` is the verified library. It decides and the caller performs:
  - `printing` plans a print job or a drawer kick as a list of actions (one
    connection, the `escpos` printer calls, the spooler hand-off) and steps
    through them with `PrintJob::next`; it proves, among other things, that
    every op starts in the default print mode unless raw bytes were sent
    before it, that a job opens exactly one connection, and that every op
    before a rejected one runs in full and in order;
  - `keyboard` reads the Linux input device table or the Windows raw input
    list handed to it and says whether a physical keyboard is attached (block
    by block: joining two tables, the first ending in an even number of
    newlines, never hides a keyboard), and steps through toggling a Linux
    virtual keyboard, whose whole run touches only the first program that
    runs or starts;
  - `usb` tells printers from other USB devices and describes them;
  - `text` holds the character-level helpers these use.
- `app/` performs the I/O (network, USB, files, processes), carries the serde
  wire types, and offers the same functions as plain calls.
- `tests/` exercises the library on concrete values.
