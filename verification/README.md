# ssid

Identifies the SSID of the WiFi network the host is connected to.

`src/` is the verified library:

- `text` — SSID bytes and names to text (`None` for an empty SSID).
- `ies` — the SSID carried in 802.11 information elements.
- `attrs` — netlink attributes as plain values; host-order integer reads;
  the nested-attribute parse through `neli`.
- `nl80211` — the interface list of a `NL80211_CMD_GET_INTERFACE` dump and the
  SSID of the associated BSS in a `NL80211_CMD_GET_SCAN` dump.
- `linux` — the lookup procedure: a state machine that asks its caller for
  each netlink request and decides the answer.
- `wlan` — the Windows adapter choice by description, and the SSID of a
  WLAN connection.

`app/` is the command-line tool: it performs the netlink I/O for the lookup on
Linux, and holds the CoreWLAN (macOS), NetworkExtension (iOS) and WLAN API
(Windows) calls, which exist only on those platforms.
