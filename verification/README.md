# pia_wireguard

A client that connects a container to Private Internet Access over WireGuard, keeps all other
traffic in, watches the connection and keeps a forwarded port alive.

`src/` holds the decisions, verified with Verus; `app/` carries them out: it talks to the servers,
runs programs, writes files and sets up the packet filter.

| Module | What it decides |
| --- | --- |
| `servers` | which region, server and port to use, and why the client does not start |
| `settings` | what the environment variables mean, and their defaults |
| `command` | the programs to run, with their arguments |
| `route` | the default route and the local network, from the output of `ip` and `ipcalc` |
| `firewall` | the packet filter, with a model of what it does to packets |
| `health` | whether the interface is up and the public address is the expected one |
| `reconnect` | the steps of a reconnection |
| `monitor` | when to reconnect, to renew the forwarded port, to restart |
| `signature` | what grants a port, and the files that tell other programs of it |
| `text` | splitting, trimming, decimal numbers |
| `outside` | the calls into other crates, with what is taken on trust of each |

The properties that span several functions are public proof functions whose names begin with
`law_`. Among them: no packet leaves outside the tunnel; a bypassed port avoids it; a connection
that stays bad is reconnected exactly as often as allowed and then the container restarts; over any
course of events no more reconnections are asked for than are allowed; every reconnection comes to
an end.

## Environment variables

| Variable | Default |
| --- | --- |
| `PIA_USER`, `PIA_PASS`, `PIA_REGION_ID` | required |
| `PORT_FORWARDING` | `true` |
| `CONNECTION_FILE` | `false` |
| `PERSIST_PORT` | `false` |
| `GLUETUN_QBITTORRENT_PORT_MANAGER` | `false` |
| `FORWARDED_PORT_FILE_PATH` | `/tmp/gluetun/forwarded_port` |
| `VPN_LAN_NETWORKS`, `BYPASS_PORTS`, `VPN_IP_CHECK_DELAY` | none |
| `VPN_HEALTH_CHECK_INTERVAL` (at least `1`) | `60` |
| `VPN_MAX_RECONNECT_ATTEMPTS` | `5` |

The health check compares the public address with that of the connection in force: after a
reconnection, with the new one. A request to bind the port that fails counts as an attempt, as a
reconnection does; a success of either kind clears the count.
