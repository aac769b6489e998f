# dxlspy

Passive sniffer for Robotis Dynamixel buses. It reads a serial port and prints
Protocol v1 and v2 traffic, one packet per line, with the direction labeled:

```
[20:02:04.150] MASTER → v1  READ        → ID   1  addr=0x0000 len=74  [FF FF 01 04 02 00 4A AE]
[20:02:04.178] MASTER → v1  WRITE       → ID   1  addr=0x001E data=30 07  [FF FF 01 05 03 1E 30 07 A1]
[20:02:04.179] ID   1 ← v1  STATUS       err=0x01(INPUT_VOLTAGE)  data=  [FF FF 01 02 01 FB]
```

The library in `src/` is verified with Verus. Its classifier reads the monotonic
clock to time replies. The program in `app/` reads the port and the time of day and
writes the lines.

| Module                   | Contents                                                        |
| ------------------------ | --------------------------------------------------------------- |
| `frame`, `frame_laws`    | what a frame is, where a stream's frames lie, laws of framing   |
| `crc`, `stuffing`        | checksum and byte stuffing of v2                                |
| `parser`                 | the streaming framer                                            |
| `meaning`, `decode_laws` | what packets mean, how replies are told from instructions, laws |
| `decode`                 | the classifier                                                  |
| `line`, `line_laws`      | the text of a packet, laws of the text                          |
| `pretty`                 | the formatter                                                   |
| `text`, `bytes`          | numbers and lists as text, small byte operations                |
| `clock`, `color`         | what is trusted of `std::time` and of `owo-colors`              |

## The v1 ambiguity

In Protocol v1 a PING to an ID and a status of that ID with error 0x01 are the same
bytes. After an instruction to an ID, the next packet from it is taken as the reply
if it comes within the reply timeout (`--v1-reply-timeout-ms`, 50 by default).
Afterwards the same bytes are a fresh PING. Protocol v2 is not ambiguous.
