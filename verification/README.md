# ble_serial

Bridges a BLE UART device, such as the WeAct CH9143, to a virtual serial port.

The library holds the decisions of the bridge, each with its contract, proved by Verus:

- `scan`: finding the device, by identifier or hardware address without a scan, or by a scan
  and asking the user
- `uart` and `gatt`: choosing the characteristics to write to and to listen to
- `pty`: setting up the pseudo-terminal behind the port
- `relay`: passing bytes on, to the device in packets
- `session`: all of it in order, from the adapter to the shutdown
- `scan_run`, `pty_run`, `relay_run`, `session_run`: what whole runs come to, whatever the
  outside answers
- `error`, `text`, `uuid_text`: error messages, text and UUIDs

A part that works with the outside never does so itself. It asks for one piece of work at a
time and goes on with the answer. The program in `app/` does the work: Bluetooth, the
pseudo-terminal, threads and the command line. It also fails where no contract covers the user's
wishes: on a timeout that is no time, and on packets of no size once there is something to send.

`dbus` is a dependency only so that its `vendored` feature builds libdbus along with the
Bluetooth stack.
