//! I2C addresses, and devices on a bus that is read and written register by
//! register.

use vstd::prelude::*;
use vstd::string::*;
use crate::text::{hexadecimal, push_hexadecimal};

verus! {

/// What can go wrong on an I2C bus.
#[derive(Debug)]
pub enum Error {
    /// A register was written and read back with another value: register,
    /// value written, value read
    FailedReadBack(u8, u8, u8),
    /// No device answers at this address
    TestInvalidAddress(Address),
    /// The device has no register with this number
    TestInaccessibleRegister(Address, u8),
    /// Anything else
    General(String),
}

/// Address of a device on an I2C bus in 8-bit form: the address proper in
/// the upper seven bits, and bit 0 clear.
#[derive(Clone, Copy, Debug, PartialEq, Eq, Structural)]
pub struct Address {
    address: u8,
}

impl Address {
    /// The 8-bit address for reading.
    pub closed spec fn value(&self) -> u8 {
        self.address
    }

    /// Bit 0 is clear.
    pub open spec fn wf(&self) -> bool {
        self.value() % 2 == 0
    }

    /// The address whose 8-bit form is `address`, which has to be even.
    pub fn new(address: u8) -> (addr: Self)
        requires
            address % 2 == 0,
        ensures
            addr.value() == address,
            addr.wf(),
    {
        Address { address }
    }

    /// The address whose 8-bit form is `address`, if that is even.
    pub fn try_new(address: u8) -> (addr: Option<Self>)
        ensures
            addr is Some <==> address % 2 == 0,
            addr is Some ==> addr->0.value() == address && addr->0.wf(),
    {
        if address % 2 == 0 {
            Some(Address { address })
        } else {
            None
        }
    }

    /// The 8-bit address for writing: bit 0 is set.
    pub fn to_writable_hw_addr(&self) -> (hw_addr: u8)
        ensures
            hw_addr == self.value() | 1,
            self.wf() ==> hw_addr == self.value() + 1,
    {
        let address = self.address;
        assert(address % 2 == 0 ==> (address | 1) == address + 1) by (bit_vector);
        self.address | 1
    }

    /// How the address is written: in hexadecimal, behind `0x`.
    pub open spec fn text(&self) -> Seq<char> {
        "0x"@ + hexadecimal(self.value() as nat)
    }

    /// The address as it is written in messages.
    pub fn to_string(&self) -> (text: String)
        ensures
            text@ == self.text(),
    {
        let mut text = String::from_str("0x");
        push_hexadecimal(&mut text, self.address as u64);
        text
    }

    /// The 8-bit address for reading.
    pub fn to_readable_hw_addr(&self) -> (hw_addr: u8)
        ensures
            hw_addr == self.value(),
    {
        self.address
    }
}

/// An I2C bus; `reads` and `writes` say which answers it may give and how each leaves it.
pub trait Bus {
    /// Whether reading `reg` at `addr` may give `value` and leave `after`.
    spec fn reads(&self, addr: Address, reg: u8, after: &Self, value: Result<u8, Error>) -> bool;

    /// Whether writing `val` to `reg` at `addr` may end as `done` and leave `after`.
    spec fn writes(&self, addr: Address, reg: u8, val: u8, after: &Self, done: Result<(), Error>)
        -> bool;

    /// Reads register `reg` of the device at `addr`.
    fn read(&mut self, addr: Address, reg: u8) -> (value: Result<u8, Error>)
        ensures
            old(self).reads(addr, reg, final(self), value),
    ;

    /// Writes `val` to register `reg` of the device at `addr`.
    fn write(&mut self, addr: Address, reg: u8, val: u8) -> (written: Result<(), Error>)
        ensures
            old(self).writes(addr, reg, val, final(self), written),
    ;
}

/// A device on an I2C bus.
pub trait Device {
    /// Reads register `reg`.
    fn read(&mut self, reg: u8) -> Result<u8, Error>;

    /// Writes `val` to register `reg`.
    fn write(&mut self, reg: u8, val: u8) -> Result<(), Error>;

    /// Writes `val` to register `reg` and reads register `reg_read_back`,
    /// which has to hold `val` then. The two numbers often differ for one
    /// register.
    fn write_readback(&mut self, reg: u8, reg_read_back: u8, val: u8) -> Result<(), Error>;

    /// The address of the device.
    fn get_address(&self) -> Address;
}

/// A bus and an address on it make a device.
pub struct DeviceOnBus<T> {
    bus: T,
    address: Address,
}

impl<T> DeviceOnBus<T> {
    /// The bus that the device is on.
    pub closed spec fn bus(&self) -> T {
        self.bus
    }

    /// The address of the device.
    pub closed spec fn address(&self) -> Address {
        self.address
    }

    pub fn new(bus: T, address: Address) -> (device: Self)
        ensures
            device.bus() == bus,
            device.address() == address,
    {
        DeviceOnBus { bus, address }
    }
}

impl<T: Bus> Device for DeviceOnBus<T> {
    fn read(&mut self, reg: u8) -> (value: Result<u8, Error>)
        ensures
            old(self).reads(reg, final(self), value),
    {
        self.bus.read(self.address, reg)
    }

    fn write(&mut self, reg: u8, val: u8) -> (written: Result<(), Error>)
        ensures
            old(self).writes(reg, val, final(self), written),
    {
        self.bus.write(self.address, reg, val)
    }

    fn write_readback(&mut self, reg: u8, reg_read_back: u8, val: u8) -> (checked: Result<
        (),
        Error,
    >)
        ensures
            old(self).writes_and_reads_back(reg, reg_read_back, val, final(self), checked),
    {
        let written = self.write(reg, val);
        let ghost between = *self;
        assert(old(self).writes(reg, val, &between, written));
        match written {
            Err(e) => return Err(e),
            Ok(()) => {},
        }
        let read = self.read(reg_read_back);
        assert(between.reads(reg_read_back, self, read));
        match read {
            Err(e) => Err(e),
            Ok(new_val) => check_readback(reg, val, new_val),
        }
    }

    fn get_address(&self) -> (address: Address)
        ensures
            address == self.address(),
    {
        self.address
    }
}

/// What comes of comparing the value written to register `reg` with the
/// value read back: they have to be the same.
pub open spec fn readback(reg: u8, val: u8, new_val: u8) -> Result<(), Error> {
    if val == new_val {
        Ok(())
    } else {
        Err(Error::FailedReadBack(reg, val, new_val))
    }
}

/// Compares what was written to register `reg` with what was read back.
pub fn check_readback(reg: u8, val: u8, new_val: u8) -> (checked: Result<(), Error>)
    ensures
        checked == readback(reg, val, new_val),
        checked is Ok <==> val == new_val,
        checked is Err ==> checked->Err_0 == Error::FailedReadBack(reg, val, new_val),
{
    if val != new_val {
        Err(Error::FailedReadBack(reg, val, new_val))
    } else {
        Ok(())
    }
}

impl<T: Bus> DeviceOnBus<T> {
    /// Whether reading register `reg` of the device may give `value` and
    /// leave the device as `after`: the bus is asked for `reg` at the
    /// address of the device, and what it answers is handed on.
    pub open spec fn reads(&self, reg: u8, after: &Self, value: Result<u8, Error>) -> bool {
        after.address() == self.address() && self.bus().reads(
            self.address(),
            reg,
            &after.bus(),
            value,
        )
    }

    /// Whether writing `val` to register `reg` of the device may end as
    /// `written` and leave the device as `after`: the bus is given `val` for
    /// `reg` at the address of the device, and what it answers is handed on.
    pub open spec fn writes(&self, reg: u8, val: u8, after: &Self, written: Result<
        (),
        Error,
    >) -> bool {
        after.address() == self.address() && self.bus().writes(
            self.address(),
            reg,
            val,
            &after.bus(),
            written,
        )
    }

    /// Whether reading register `reg_read_back` of the device `self` after a
    /// write of `val` to `reg` may end as `checked` and leave `after`: an
    /// error of the bus is handed on, and a value is compared with `val`.
    pub open spec fn reads_back(
        &self,
        reg: u8,
        reg_read_back: u8,
        val: u8,
        after: &Self,
        checked: Result<(), Error>,
    ) -> bool {
        exists|read: Result<u8, Error>| #[trigger]
            self.reads(reg_read_back, after, read) && checked == match read {
                Err(e) => Err(e),
                Ok(new_val) => readback(reg, val, new_val),
            }
    }

    /// Whether writing `val` to `reg` and reading `reg_read_back` may end as
    /// `checked` and leave the device as `after`. The write comes first, and
    /// where it fails its error is the outcome and nothing is read. Else the
    /// register is read back from the device as the write left it.
    pub open spec fn writes_and_reads_back(
        &self,
        reg: u8,
        reg_read_back: u8,
        val: u8,
        after: &Self,
        checked: Result<(), Error>,
    ) -> bool {
        exists|between: Self, written: Result<(), Error>| #[trigger]
            self.writes(reg, val, &between, written) && match written {
                Err(e) => *after == between && checked == Err::<(), Error>(e),
                Ok(()) => between.reads_back(reg, reg_read_back, val, after, checked),
            }
    }
}

} // verus!
