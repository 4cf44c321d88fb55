//! LunarCore: a LoRa mesh node that bridges MeshCore, Meshtastic and RNode
//! hosts over USB, BLE and WiFi to the radio, repeats packets when no host
//! is connected, and offers an AT console. The library holds the node's
//! decisions, framing, crypto and settings with their contracts; the
//! firmware around it drives the hardware.
pub mod crypto;
pub mod hvec;
pub mod meshtastic;
pub mod rng;
pub mod rnode_frame;
pub mod radio;
pub mod subghz;
pub mod sx1262;
pub mod sx1262_subghz;
pub mod sx1276;
pub mod sx1280;
pub mod power;
pub mod usb;
pub mod boards;
pub mod device;
pub mod battery;
pub mod led;
pub mod dedup;
pub mod text;
pub mod stats;
pub mod at_command;
pub mod node;
pub mod wire;
