//! Transport abstractions for gossip on embedded platforms.
//!
//! The transports here are placeholders: real implementations need
//! platform-specific code. They compile on any target for testing.

use vstd::prelude::*;
use crate::murmur::Murmur;

verus! {

/// A transport that can send and receive murmurs; platforms implement it.
pub trait GossipTransport {
    /// Send a murmur. Returns true on success.
    fn send(&mut self, murmur: &Murmur) -> bool;

    /// Try to receive a murmur (non-blocking).
    /// Returns None if no murmur is available.
    fn receive(&mut self) -> Option<Murmur>;

    /// Check if the transport is ready.
    fn is_ready(&self) -> bool;
}

/// Placeholder for Wi-Fi UDP multicast transport (ESP32).
pub struct WifiGossip {
    /// Local port for multicast.
    pub port: u16,
    /// Whether transport is initialized.
    pub ready: bool,
}

impl WifiGossip {
    /// A transport on `port` that is not yet initialized.
    pub fn new(port: u16) -> (r: Self)
        ensures
            r.port == port,
            !r.ready,
    {
        Self { port, ready: false }
    }

    /// Initialize the transport; the stub always succeeds.
    pub fn init(&mut self) -> (ok: bool)
        ensures
            ok,
            final(self).ready,
            final(self).port == old(self).port,
    {
        self.ready = true;
        true
    }
}

/// Placeholder for BLE gossip transport (ESP32).
pub struct BleGossip {
    /// BLE advertising interval in ms.
    pub interval_ms: u16,
    /// Whether transport is initialized.
    pub ready: bool,
}

impl BleGossip {
    /// A transport advertising every `interval_ms`, not yet initialized.
    pub fn new(interval_ms: u16) -> (r: Self)
        ensures
            r.interval_ms == interval_ms,
            !r.ready,
    {
        Self { interval_ms, ready: false }
    }

    /// Initialize the transport; the stub always succeeds.
    pub fn init(&mut self) -> (ok: bool)
        ensures
            ok,
            final(self).ready,
            final(self).interval_ms == old(self).interval_ms,
    {
        self.ready = true;
        true
    }
}

/// Placeholder for UART/Serial gossip transport (Arduino).
pub struct SerialGossip {
    /// Baud rate.
    pub baud: u32,
    /// Whether transport is initialized.
    pub ready: bool,
}

impl SerialGossip {
    /// A serial transport at `baud`, not yet initialized.
    pub fn new(baud: u32) -> (r: Self)
        ensures
            r.baud == baud,
            !r.ready,
    {
        Self { baud, ready: false }
    }

    /// Initialize the transport; the stub always succeeds.
    pub fn init(&mut self) -> (ok: bool)
        ensures
            ok,
            final(self).ready,
            final(self).baud == old(self).baud,
    {
        self.ready = true;
        true
    }
}

/// Placeholder for I2C mesh gossip transport (Arduino).
pub struct I2cGossip {
    /// I2C address of this device.
    pub address: u8,
    /// Whether transport is initialized.
    pub ready: bool,
}

impl I2cGossip {
    /// A transport at bus `address`, not yet initialized.
    pub fn new(address: u8) -> (r: Self)
        ensures
            r.address == address,
            !r.ready,
    {
        Self { address, ready: false }
    }

    /// Initialize the transport; the stub always succeeds.
    pub fn init(&mut self) -> (ok: bool)
        ensures
            ok,
            final(self).ready,
            final(self).address == old(self).address,
    {
        self.ready = true;
        true
    }
}

/// Placeholder for flash storage (ESP32).
pub struct FlashStorage {
    pub ready: bool,
}

impl FlashStorage {
    /// Storage that is not yet initialized.
    pub fn new() -> (r: Self)
        ensures
            !r.ready,
    {
        Self { ready: false }
    }

    /// Initialize the storage; the stub always succeeds.
    pub fn init(&mut self) -> (ok: bool)
        ensures
            ok,
            final(self).ready,
    {
        self.ready = true;
        true
    }
}

/// Placeholder for EEPROM storage (Arduino).
pub struct EepromStorage {
    pub ready: bool,
}

impl EepromStorage {
    /// Storage that is not yet initialized.
    pub fn new() -> (r: Self)
        ensures
            !r.ready,
    {
        Self { ready: false }
    }

    /// Initialize the storage; the stub always succeeds.
    pub fn init(&mut self) -> (ok: bool)
        ensures
            ok,
            final(self).ready,
    {
        self.ready = true;
        true
    }
}

} // verus!
