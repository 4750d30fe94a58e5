# pumpkin

Game logic of the Pumpkin server, written in Rust and verified with Verus.

- `src/registry`: registries of shared values, network IDs by protocol version, typed paths
- `src/lighting`: block light on dense volumes, and the planning of the same on a graphics processor
- `src/block`: cauldrons and leaves
- `src/command`: structure names, structure sets and distances for `/locate`
- `src/entity`: combat, experience orbs, item frames, ocelots and rabbits
- `src/world`: the world border
- `src/ieee.rs`: comparing floating-point numbers by bit pattern
- `src/terminal.rs`, `src/config.rs`: the saved terminal state and level settings

`app` holds what the library cannot: Vulkan, the terminal, locks, floating-point arithmetic and the
hooks into the rest of the server. It decides nothing that the library can decide.

Contracts are stated over mathematical models: maps for registries, sequences of light levels for
volumes, numbers for bit patterns. Properties that relate several functions are public proof
functions whose names start with `law_`.
