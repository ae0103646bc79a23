# xenith_devices

Device drivers for a small x86-64 kernel, verified with Verus.

| Module | What it drives |
| --- | --- |
| `ahci` | SATA disks behind an AHCI controller |
| `audio` | High Definition Audio controllers, their codecs and streams |
| `cmos` | battery-backed memory and the clock in it |
| `display` | the SVGA II adapter: modes, command ring, fences |
| `fb_font`, `gfx`, `framebuffer`, `console` | drawing, and a text console on pixels |
| `net` | E1000 and RTL8139 adapters, interrupts, and feeding a stack |
| `pci` | configuration space, discovery, capabilities, interrupt routing |
| `pcspk` | the speaker |
| `ps2` | the 8042 controller, keyboard and mouse |
| `registry` | devices by name |
| `rng` | entropy, a ChaCha8 stream, and random bytes for programs |
| `serial`, `serial_ext` | 16550 serial ports |
| `startup` | bringing all of it up |

A driver never touches hardware itself. It talks to a `machine::Machine`: port
and memory cycles, questions to the kernel, and orders to it. The trait's
specification is a conversation, `machine::Io`: the accesses made so far and the
replies to come. A driver's contract is a function on conversations, so it says
for every sequence of replies which accesses are made, in which order, and what
is returned.

`src/` is the library, all of it verified. `tests/` runs it on scripted and
simulated hardware. `app/` puts it on real hardware: it implements `Machine` with
port instructions and volatile accesses, and holds the shared state.
