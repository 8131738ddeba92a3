//! The interface to the network card, and the bookkeeping of the RTL8139.

use vstd::prelude::*;
use crate::net::{MacAddress, NetworkError, NetworkInterface};
use crate::net::wire::copy_range;

verus! {

/// What the network stack asks of a network card.
pub trait NetworkDriver {
    fn init(&mut self) -> Result<(), NetworkError>;

    /// Hands a whole Ethernet frame to the card.
    fn send(&mut self, data: &[u8]) -> Result<(), NetworkError>;

    /// The next received frame, if one is there.
    fn receive(&mut self) -> Option<Vec<u8>>;

    fn mac_address(&self) -> MacAddress;
}

/// The largest frame that the card takes.
pub const MAX_TX_LEN: usize = 1792;

/// The number of transmit buffers of the card.
pub const TX_BUFFERS: usize = 4;

/// The register of the first transmit buffer, counted from the I/O base.
pub const TX_REGISTER_BASE: u16 = 0x10;

pub const RTL8139_CMD: u16 = 0x37;

pub const RTL8139_IMR: u16 = 0x3C;

pub const RTL8139_RCR: u16 = 0x44;

pub const RTL8139_CONFIG_1: u16 = 0x52;

/// The I/O base of the card under QEMU.
pub const DEFAULT_IO_BASE: u16 = 0xC000;

/// The state that the driver of the RTL8139 keeps.
pub struct Rtl8139 {
    pub io_base: u16,
    pub mac_address: MacAddress,
    pub rx_buffer: Vec<u8>,
    pub tx_buffer: Vec<Vec<u8>>,
    pub current_tx_buffer: usize,
}

/// What to write to the card to send the frame that was staged.
#[derive(Debug, Clone, Copy, PartialEq, Eq, Structural)]
pub struct TxCommand {
    /// The transmit buffer that holds the frame.
    pub buffer: usize,
    /// The port that takes the address of the buffer.
    pub address_port: u16,
    /// The port that takes the length of the frame and starts the sending.
    pub length_port: u16,
    /// The length to write there.
    pub length: u32,
}

impl Rtl8139 {
    /// Four transmit buffers, used in turn, and ports that fit 16 bits.
    pub open spec fn wf(&self) -> bool {
        &&& self.tx_buffer@.len() == TX_BUFFERS
        &&& self.current_tx_buffer < TX_BUFFERS
        &&& self.io_base <= 0xFF00
    }

    /// The state for a card at `io_base`: no address read yet, empty buffers.
    pub fn new(io_base: u16) -> (r: Self)
        requires
            io_base <= 0xFF00,
        ensures
            r.wf(),
            r.io_base == io_base,
            r.mac_address.0@ == seq![0u8, 0u8, 0u8, 0u8, 0u8, 0u8],
            r.rx_buffer@.len() == 0,
            r.current_tx_buffer == 0,
            forall|i: int| 0 <= i < TX_BUFFERS ==> (#[trigger] r.tx_buffer@[i])@.len() == 0,
    {
        let mut tx_buffer: Vec<Vec<u8>> = Vec::new();
        tx_buffer.push(Vec::new());
        tx_buffer.push(Vec::new());
        tx_buffer.push(Vec::new());
        tx_buffer.push(Vec::new());
        Rtl8139 {
            io_base,
            mac_address: MacAddress::new([0, 0, 0, 0, 0, 0]),
            rx_buffer: Vec::new(),
            tx_buffer,
            current_tx_buffer: 0,
        }
    }

    /// Stages `data` for sending: it is copied to the transmit buffer whose
    /// turn it is, and the turn passes to the next of the four. The answer
    /// says what to write to the card. A frame of more than 1792 bytes is
    /// refused and nothing changes.
    pub fn stage(&mut self, data: &[u8]) -> (r: Result<TxCommand, NetworkError>)
        requires
            old(self).wf(),
        ensures
            final(self).wf(),
            final(self).io_base == old(self).io_base,
            final(self).mac_address == old(self).mac_address,
            final(self).rx_buffer == old(self).rx_buffer,
            data@.len() > MAX_TX_LEN ==> r == Err::<TxCommand, NetworkError>(
                NetworkError::BufferTooSmall,
            ) && *final(self) == *old(self),
            data@.len() <= MAX_TX_LEN ==> {
                let turn = old(self).current_tx_buffer;
                &&& r == Ok::<TxCommand, NetworkError>(
                    TxCommand {
                        buffer: turn,
                        address_port: (old(self).io_base + TX_REGISTER_BASE + turn * 4) as u16,
                        length_port: (old(self).io_base + TX_REGISTER_BASE + turn * 4 + 4) as u16,
                        length: data@.len() as u32,
                    },
                )
                &&& final(self).current_tx_buffer == (turn + 1) % TX_BUFFERS as int
                &&& final(self).tx_buffer@.len() == TX_BUFFERS
                &&& final(self).tx_buffer@[turn as int]@ == data@
                &&& forall|i: int|
                    0 <= i < TX_BUFFERS && i != turn ==>
                        final(self).tx_buffer@[i] == old(self).tx_buffer@[i]
            },
    {
        if data.len() > MAX_TX_LEN {
            return Err(NetworkError::BufferTooSmall);
        }
        let turn = self.current_tx_buffer;
        let copy = copy_range(data, 0, data.len());
        assert(data@.subrange(0, data@.len() as int) == data@);
        self.tx_buffer[turn] = copy;
        let port: u16 = self.io_base + TX_REGISTER_BASE + (turn as u16) * 4;
        self.current_tx_buffer = (turn + 1) % TX_BUFFERS;
        Ok(
            TxCommand {
                buffer: turn,
                address_port: port,
                length_port: port + 4,
                length: data.len() as u32,
            },
        )
    }

    pub fn mac_address(&self) -> (r: MacAddress)
        ensures
            r == self.mac_address,
    {
        self.mac_address
    }
}

/// Takes the hardware address that the card reports into the interface.
pub fn init(interface: &mut NetworkInterface, card_address: MacAddress) -> (r: Result<
    (),
    NetworkError,
>)
    ensures
        r is Ok,
        *final(interface) == (NetworkInterface { mac_address: card_address, ..*old(interface) }),
{
    interface.mac_address = card_address;
    Ok(())
}

} // verus!
