# Minecraft Relay

A Minecraft (Java Edition) LAN game relay. LAN games discovered on the local network by listening
to UDP multicasts can be advertised and connected to by relay peers. Multi-hop relaying is
supported, allowing users to connect to a central server in order to avoid NAT port forwarding.

## Layout

- `src/` holds every decision that the relay takes, as functions over plain values. Their
  contracts are proved with Verus.
  - `discovery` reads and writes the announcements of games on the local network; `text` and
    `decimal` are its tools.
  - `relay` is the relay itself. `relay::model` says what the relay knows and how each event
    changes it; `relay::laws` and `relay::runs` say what follows from that for the relay as a
    whole, at each event and over any course of events.
    `relay::dispatch` takes in events, and `relay::exchange` is where messages are collected.
  - `relay::connection` is the connection to another relay: handshake, frames, encryption. The
    encryption comes from the `snow` crate; `relay::noise` states what is taken for granted of it.
  - `relay::connector` and `relay::link` are the lives of a connection to another relay and of
    one to a game, `game` holds what the relay and its game connections and listeners share, and
    `ui` is the dialogue with the user.
- `app/` is the program around it: sockets, threads, channels, the encoding of messages.
- `tests/` runs the library.

## Running

```
$ minecraft-relay [peer ip:port] ...
```
