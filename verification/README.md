# Nearscreen receiver

Shows an iPhone screen that the Nearscreen app streams over the local network.

- `src/` is the library: the wire protocol, the handshake and the one stream slot, who may
  stream, the search for a reachable address, the NAL units and pictures of the stream, the
  pipeline between socket and screen, and what the window says. Every function in it is verified
  with Verus against its contract; the laws that span functions are public proof functions.
- `tests/` runs the library on concrete values.
- `app/` is the program around it: sockets, files, threads, the system decoders, the window and
  its drawing. It expects the font `assets/Nunito[wght].ttf` next to the program.

What the library takes on trust of other crates stands in doc comments above the functions marked
`external_body`: the host name (`gethostname`), the network interfaces (`if-addrs`), the mDNS
service record (`mdns-sd`), JSON text (`serde_json`), QR codes (`qrcode`), and two functions of the
standard library.
