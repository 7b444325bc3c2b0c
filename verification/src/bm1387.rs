//! Commands and registers of the BM1387 hash chip as they go over the wire.
//!
//! A command is a three byte header, its payload and one checksum byte; the
//! checksum is added by whoever sends the command. A register is one 32-bit
//! word, sent most significant byte first. Layouts are stated as arithmetic
//! on the fields: a field of `w` bits at bit `p` adds `field * 2^p`.

use vstd::prelude::*;
use vstd::string::*;
use vstd::arithmetic::power2::{pow2, lemma_pow2_unfold, lemma_pow2_strictly_increases, lemma2_to64, lemma_pow2_pos};
use vstd::arithmetic::div_mod::lemma_div_denominator;
use crate::error::{Error, ErrorKind, ErrorKindView};
use crate::text::{decimal, push_decimal};

verus! {

/// Address of the register that counts hashes.
pub const HASH_COUNTING_REG: u8 = 0x14;

/// Largest divisor of the baud rate clock.
pub const MAX_BAUD_CLOCK_DIV: usize = 26;

/// The chip's clock is divided by this before the baud divisor applies.
pub const CHIP_OSC_CLK_BASE_BAUD_DIV: usize = 8;

/// Number of cores on a chip.
pub const NUM_CORES_ON_CHIP: usize = 114;

/// Largest linear chip address that the hardware can encode.
pub const MAX_CHIP_ADDRESS: usize = 63;

/// Bytes of the checksum that closes a command.
pub const CHECKSUM_SIZE: usize = 1;

/// Address of a chip on the chain: all chips, or the chip with a linear
/// index. The hardware counts addresses in steps of four.
#[derive(Clone, Copy, Debug, PartialEq, Eq, Structural)]
pub enum ChipAddress {
    All,
    /// Linear chip address
    One(usize),
}

impl ChipAddress {
    /// Whether the address means all chips.
    pub open spec fn spec_is_broadcast(&self) -> bool {
        *self is All
    }

    /// Whether the address means all chips.
    #[verifier::when_used_as_spec(spec_is_broadcast)]
    pub fn is_broadcast(&self) -> (all: bool)
        ensures
            all == self.spec_is_broadcast(),
    {
        match self {
            ChipAddress::All => true,
            ChipAddress::One(_) => false,
        }
    }

    /// Whether the hardware address fits into a byte.
    pub open spec fn fits(&self) -> bool {
        match *self {
            ChipAddress::All => true,
            ChipAddress::One(x) => x <= MAX_CHIP_ADDRESS,
        }
    }

    /// The address as the hardware counts it: four times the index, and 0
    /// for all chips.
    pub open spec fn hw_addr(&self) -> u8
        recommends
            self.fits(),
    {
        match *self {
            ChipAddress::All => 0,
            ChipAddress::One(x) => (x * 4) as u8,
        }
    }

    /// The address as the hardware counts it.
    pub fn to_hw_addr(&self) -> (addr: u8)
        requires
            self.fits(),
        ensures
            addr == self.hw_addr(),
    {
        match self {
            ChipAddress::All => 0,
            ChipAddress::One(x) => (*x * 4) as u8,
        }
    }
}

/// Address of a core on the chain. Every nonce that a chip returns tells
/// which chip and which core found it.
#[derive(Clone, Copy, Debug, PartialEq, Eq, Structural)]
pub struct CoreAddress {
    pub chip: usize,
    pub core: usize,
}

impl CoreAddress {
    /// The chip that found `nonce`: bits 2 to 7.
    pub open spec fn chip_of(nonce: u32) -> usize {
        ((nonce >> 2) & 0x3f) as usize
    }

    /// The core that found `nonce`: bits 24 to 30.
    pub open spec fn core_of(nonce: u32) -> usize {
        ((nonce >> 24) & 0x7f) as usize
    }

    /// The chip and core that found `nonce`.
    pub fn new(nonce: u32) -> (address: Self)
        ensures
            address.chip == Self::chip_of(nonce),
            address.core == Self::core_of(nonce),
            address.chip <= 63,
            address.core <= 127,
    {
        let chip: u32 = (nonce >> 2) & 0x3f;
        let core: u32 = (nonce >> 24) & 0x7f;
        assert((nonce >> 2) & 0x3f <= 63) by (bit_vector);
        assert((nonce >> 24) & 0x7f <= 127) by (bit_vector);
        CoreAddress { chip: chip as usize, core: core as usize }
    }
}

/// The four bytes of `value`, most significant first.
pub open spec fn be_bytes(value: u32) -> Seq<u8> {
    seq![
        (value / 0x100_0000) as u8,
        ((value / 0x1_0000) % 0x100) as u8,
        ((value / 0x100) % 0x100) as u8,
        (value % 0x100) as u8,
    ]
}

/// The word whose bytes, most significant first, are `b0` to `b3`.
pub open spec fn from_be_bytes(b0: u8, b1: u8, b2: u8, b3: u8) -> u32 {
    (b0 * 0x100_0000 + b1 * 0x1_0000 + b2 * 0x100 + b3) as u32
}

/// A number written as `hi * base + lo` with `lo` below `base` has `hi` as
/// its quotient and `lo` as its remainder by `base`.
pub proof fn lemma_quotient_and_remainder(hi: int, lo: int, base: int)
    requires
        base > 0,
        0 <= lo < base,
    ensures
        (hi * base + lo) / base == hi,
        (hi * base + lo) % base == lo,
{
    vstd::arithmetic::div_mod::lemma_fundamental_div_mod_converse(hi * base + lo, base, hi, lo);
}

/// The field of `width` values that stands `shift` above the bottom of
/// `value` is found by dividing by `shift` and taking the rest by `width`.
pub proof fn lemma_field_of_word(value: int, hi: int, field: int, lo: int, shift: int, width: int)
    requires
        shift > 0,
        width > 0,
        0 <= lo < shift,
        0 <= field < width,
        value == (hi * width + field) * shift + lo,
    ensures
        (value / shift) % width == field,
{
    lemma_quotient_and_remainder(hi * width + field, lo, shift);
    lemma_quotient_and_remainder(hi, field, width);
}

/// Four bytes put together as a word come apart as the same bytes.
pub proof fn lemma_bytes_of_word(b0: u8, b1: u8, b2: u8, b3: u8)
    ensures
        be_bytes(from_be_bytes(b0, b1, b2, b3)) == seq![b0, b1, b2, b3],
{
    let value = b0 * 0x100_0000 + b1 * 0x1_0000 + b2 * 0x100 + b3;
    lemma_quotient_and_remainder(b0 as int, b1 * 0x1_0000 + b2 * 0x100 + b3, 0x100_0000);
    lemma_quotient_and_remainder(b0 * 0x100 + b1, b2 * 0x100 + b3, 0x1_0000);
    lemma_quotient_and_remainder(b0 as int, b1 as int, 0x100);
    lemma_quotient_and_remainder(b0 * 0x1_0000 + b1 * 0x100 + b2, b3 as int, 0x100);
    lemma_quotient_and_remainder(b0 * 0x100 + b1, b2 as int, 0x100);
    assert(value / 0x100_0000 == b0);
    assert(value / 0x1_0000 == b0 * 0x100 + b1);
    assert(value / 0x100 == b0 * 0x1_0000 + b1 * 0x100 + b2);
    assert(be_bytes(from_be_bytes(b0, b1, b2, b3)) =~= seq![b0, b1, b2, b3]);
}

/// The four bytes of `value`, most significant first.
pub fn u32_to_be_bytes(value: u32) -> (bytes: [u8; 4])
    ensures
        bytes@ == be_bytes(value),
{
    let bytes = [
        (value / 0x100_0000) as u8,
        ((value / 0x1_0000) % 0x100) as u8,
        ((value / 0x100) % 0x100) as u8,
        (value % 0x100) as u8,
    ];
    assert(bytes@ =~= be_bytes(value));
    bytes
}

/// The word whose bytes, most significant first, are in `bytes`.
pub fn u32_from_be_bytes(bytes: &[u8; 4]) -> (value: u32)
    ensures
        value == from_be_bytes(bytes@[0], bytes@[1], bytes@[2], bytes@[3]),
        be_bytes(value) == bytes@,
{
    let b0: u32 = bytes[0] as u32;
    let b1: u32 = bytes[1] as u32;
    let b2: u32 = bytes[2] as u32;
    let b3: u32 = bytes[3] as u32;
    let value: u32 = b0 * 0x100_0000 + b1 * 0x1_0000 + b2 * 0x100 + b3;
    proof {
        lemma_bytes_of_word(bytes@[0], bytes@[1], bytes@[2], bytes@[3]);
        assert(bytes@ =~= seq![bytes@[0], bytes@[1], bytes@[2], bytes@[3]]);
    }
    value
}

/// Bytes to a word and back gives the bytes, and a word to bytes and back
/// gives the word.
pub proof fn lemma_be_bytes_round_trip(value: u32)
    ensures
        be_bytes(value).len() == 4,
        from_be_bytes(
            be_bytes(value)[0],
            be_bytes(value)[1],
            be_bytes(value)[2],
            be_bytes(value)[3],
        ) == value,
{
}

/// Kind of a command.
#[derive(Clone, Copy, Debug, PartialEq, Eq, Structural)]
pub enum CmdType {
    /// Control command for the chip
    VilCtlCmd,
}

impl CmdType {
    /// The number that stands for the kind on the wire.
    pub open spec fn code(&self) -> u8 {
        0x02
    }
}

/// First byte of a command: the command code in bits 0 to 3, the flag for
/// all chips in bit 4 and the kind of command in bits 5 to 7.
#[derive(Clone, Copy, Debug, PartialEq, Eq, Structural)]
pub struct Cmd {
    pub code: u8,
    pub to_all: bool,
    pub cmd_type: CmdType,
}

impl Cmd {
    /// A control command; of `code` the low four bits are kept.
    pub fn new(code: u8, to_all: bool) -> (cmd: Self)
        ensures
            cmd == (Cmd { code: code % 16, to_all, cmd_type: CmdType::VilCtlCmd }),
    {
        Cmd { code: code % 16, to_all, cmd_type: CmdType::VilCtlCmd }
    }

    /// The byte that stands for the command.
    pub open spec fn packed(&self) -> u8 {
        ((self.code % 16) + (if self.to_all {
            16int
        } else {
            0int
        }) + self.cmd_type.code() * 32) as u8
    }

    /// The byte that stands for the command.
    pub fn pack(&self) -> (byte: u8)
        ensures
            byte == self.packed(),
    {
        let flag: u8 = if self.to_all {
            16
        } else {
            0
        };
        (self.code % 16) + flag + 0x40
    }
}

/// Header of a command: the command byte, the length of the whole command
/// with its checksum, and the hardware address of the chip.
#[derive(Clone, Copy, Debug, PartialEq, Eq, Structural)]
pub struct CmdHeader {
    pub cmd: Cmd,
    pub length: u8,
    pub hw_addr: u8,
}

impl CmdHeader {
    /// Header of a command of `length` bytes that is closed by a checksum
    /// of `checksum_size` bytes.
    pub fn new_extended(
        code: u8,
        length: usize,
        chip_address: ChipAddress,
        checksum_size: usize,
    ) -> (header: Self)
        requires
            chip_address.fits(),
            length + checksum_size <= u8::MAX,
        ensures
            header == (CmdHeader {
                cmd: Cmd {
                    code: code % 16,
                    to_all: chip_address.is_broadcast(),
                    cmd_type: CmdType::VilCtlCmd,
                },
                length: (length + checksum_size) as u8,
                hw_addr: chip_address.hw_addr(),
            }),
    {
        CmdHeader {
            cmd: Cmd::new(code, chip_address.is_broadcast()),
            length: (length + checksum_size) as u8,
            hw_addr: chip_address.to_hw_addr(),
        }
    }

    /// Header of a control command of `length` bytes, which is closed by a
    /// checksum of one byte.
    pub fn new(code: u8, length: usize, chip_address: ChipAddress) -> (header: Self)
        requires
            chip_address.fits(),
            length + CHECKSUM_SIZE <= u8::MAX,
        ensures
            header == (CmdHeader {
                cmd: Cmd {
                    code: code % 16,
                    to_all: chip_address.is_broadcast(),
                    cmd_type: CmdType::VilCtlCmd,
                },
                length: (length + CHECKSUM_SIZE) as u8,
                hw_addr: chip_address.hw_addr(),
            }),
    {
        Self::new_extended(code, length, chip_address, CHECKSUM_SIZE)
    }

    /// The three bytes of the header.
    pub open spec fn packed(&self) -> Seq<u8> {
        seq![self.cmd.packed(), self.length, self.hw_addr]
    }

    /// The three bytes of the header.
    pub fn pack(&self) -> (bytes: [u8; 3])
        ensures
            bytes@ == self.packed(),
    {
        let bytes = [self.cmd.pack(), self.length, self.hw_addr];
        assert(bytes@ =~= self.packed());
        bytes
    }
}

/// Code of the command that writes a register.
pub const CMD_SET_CONFIG: u8 = 0x08;

/// Code of the command that reads a register.
pub const CMD_GET_STATUS: u8 = 0x04;

/// Code of the command that gives a chip its address.
pub const CMD_SET_CHIP_ADDRESS: u8 = 0x01;

/// Code of the command that takes all chips off the chain.
pub const CMD_INACTIVATE_FROM_CHAIN: u8 = 0x05;

/// The header of a command with code `code` and `length` bytes for
/// `chip_address`.
pub open spec fn command_header(code: u8, length: nat, chip_address: ChipAddress) -> CmdHeader {
    CmdHeader {
        cmd: Cmd { code, to_all: chip_address.is_broadcast(), cmd_type: CmdType::VilCtlCmd },
        length: (length + CHECKSUM_SIZE) as u8,
        hw_addr: chip_address.hw_addr(),
    }
}

/// Answer of a chip: the value of a register, and two bytes that are zero
/// on this chip and hold chip address and register number on later ones.
#[derive(Clone, Copy, Debug, PartialEq, Eq, Structural)]
pub struct CmdResponse {
    pub value: u32,
    pub chip_address: u8,
    pub register: u8,
}

impl CmdResponse {
    /// Number of bytes of a packed response.
    pub const SIZE: usize = 6;

    /// The six bytes of the response.
    pub open spec fn packed(&self) -> Seq<u8> {
        be_bytes(self.value) + seq![self.chip_address, self.register]
    }

    /// The response that `bytes` stand for.
    pub open spec fn unpacked(bytes: Seq<u8>) -> CmdResponse
        recommends
            bytes.len() == 6,
    {
        CmdResponse {
            value: from_be_bytes(bytes[0], bytes[1], bytes[2], bytes[3]),
            chip_address: bytes[4],
            register: bytes[5],
        }
    }

    /// The six bytes of the response.
    pub fn pack(&self) -> (bytes: [u8; 6])
        ensures
            bytes@ == self.packed(),
    {
        let v = u32_to_be_bytes(self.value);
        let bytes = [v[0], v[1], v[2], v[3], self.chip_address, self.register];
        assert(bytes@ =~= self.packed());
        bytes
    }

    /// The response that `bytes` stand for.
    pub fn unpack(bytes: &[u8; 6]) -> (response: Self)
        ensures
            response == Self::unpacked(bytes@),
            response.packed() == bytes@,
    {
        let word = [bytes[0], bytes[1], bytes[2], bytes[3]];
        let response = CmdResponse {
            value: u32_from_be_bytes(&word),
            chip_address: bytes[4],
            register: bytes[5],
        };
        assert(response.packed() =~= bytes@);
        response
    }
}

/// Command that writes `value` into a register.
#[derive(Clone, Copy, Debug, PartialEq, Eq, Structural)]
pub struct SetConfigCmd {
    pub header: CmdHeader,
    pub register: u8,
    pub value: u32,
}

impl SetConfigCmd {
    /// Number of bytes of the packed command, without the checksum.
    pub const SIZE: usize = 8;

    pub fn new(chip_address: ChipAddress, register: u8, value: u32) -> (cmd: Self)
        requires
            chip_address.fits(),
        ensures
            cmd == (SetConfigCmd {
                header: command_header(CMD_SET_CONFIG, 8, chip_address),
                register,
                value,
            }),
    {
        let header = CmdHeader::new(CMD_SET_CONFIG, 8, chip_address);
        SetConfigCmd { header, register, value }
    }

    /// The bytes of the command: header, register number, and the value
    /// with its most significant byte first.
    pub open spec fn packed(&self) -> Seq<u8> {
        self.header.packed() + seq![self.register] + be_bytes(self.value)
    }

    /// The bytes of the command.
    pub fn pack(&self) -> (bytes: [u8; 8])
        ensures
            bytes@ == self.packed(),
    {
        let h = self.header.pack();
        let v = u32_to_be_bytes(self.value);
        let bytes = [h[0], h[1], h[2], self.register, v[0], v[1], v[2], v[3]];
        assert(bytes@ =~= self.packed());
        bytes
    }
}

/// Command that reads a register.
#[derive(Clone, Copy, Debug, PartialEq, Eq, Structural)]
pub struct GetStatusCmd {
    pub header: CmdHeader,
    pub register: u8,
}

impl GetStatusCmd {
    /// Number of bytes of the packed command, without the checksum.
    pub const SIZE: usize = 4;

    pub fn new(chip_address: ChipAddress, register: u8) -> (cmd: Self)
        requires
            chip_address.fits(),
        ensures
            cmd == (GetStatusCmd {
                header: command_header(CMD_GET_STATUS, 4, chip_address),
                register,
            }),
    {
        let header = CmdHeader::new(CMD_GET_STATUS, 4, chip_address);
        GetStatusCmd { header, register }
    }

    /// The bytes of the command: header and register number.
    pub open spec fn packed(&self) -> Seq<u8> {
        self.header.packed() + seq![self.register]
    }

    /// The bytes of the command.
    pub fn pack(&self) -> (bytes: [u8; 4])
        ensures
            bytes@ == self.packed(),
    {
        let h = self.header.pack();
        let bytes = [h[0], h[1], h[2], self.register];
        assert(bytes@ =~= self.packed());
        bytes
    }
}

/// Command that gives the first chip without an address its address.
#[derive(Clone, Copy, Debug, PartialEq, Eq, Structural)]
pub struct SetChipAddressCmd {
    pub header: CmdHeader,
    pub reserved: u8,
}

impl SetChipAddressCmd {
    /// Number of bytes of the packed command, without the checksum.
    pub const SIZE: usize = 4;

    /// The command for one chip; there is none for all chips.
    pub fn new(chip_address: ChipAddress) -> (cmd: Self)
        requires
            chip_address.fits(),
            !chip_address.is_broadcast(),
        ensures
            cmd == (SetChipAddressCmd {
                header: command_header(CMD_SET_CHIP_ADDRESS, 4, chip_address),
                reserved: 0,
            }),
    {
        let header = CmdHeader::new(CMD_SET_CHIP_ADDRESS, 4, chip_address);
        SetChipAddressCmd { header, reserved: 0 }
    }

    /// The bytes of the command: header and one reserved byte.
    pub open spec fn packed(&self) -> Seq<u8> {
        self.header.packed() + seq![self.reserved]
    }

    /// The bytes of the command.
    pub fn pack(&self) -> (bytes: [u8; 4])
        ensures
            bytes@ == self.packed(),
    {
        let h = self.header.pack();
        let bytes = [h[0], h[1], h[2], self.reserved];
        assert(bytes@ =~= self.packed());
        bytes
    }
}

/// Command that makes all chips forget their addresses.
#[derive(Clone, Copy, Debug, PartialEq, Eq, Structural)]
pub struct InactivateFromChainCmd {
    pub header: CmdHeader,
    pub reserved: u8,
}

impl InactivateFromChainCmd {
    /// Number of bytes of the packed command, without the checksum.
    pub const SIZE: usize = 4;

    pub fn new() -> (cmd: Self)
        ensures
            cmd == (InactivateFromChainCmd {
                header: command_header(CMD_INACTIVATE_FROM_CHAIN, 4, ChipAddress::All),
                reserved: 0,
            }),
    {
        let header = CmdHeader::new(CMD_INACTIVATE_FROM_CHAIN, 4, ChipAddress::All);
        InactivateFromChainCmd { header, reserved: 0 }
    }

    /// The bytes of the command: header and one reserved byte.
    pub open spec fn packed(&self) -> Seq<u8> {
        self.header.packed() + seq![self.reserved]
    }

    /// The bytes of the command.
    pub fn pack(&self) -> (bytes: [u8; 4])
        ensures
            bytes@ == self.packed(),
    {
        let h = self.header.pack();
        let bytes = [h[0], h[1], h[2], self.reserved];
        assert(bytes@ =~= self.packed());
        bytes
    }
}

/// A register of the chip: one 32-bit word that is read with
/// [`GetStatusCmd`] and written with [`SetConfigCmd`].
pub trait Register: Sized {
    /// Number under which the chip knows the register.
    const REG_NUM: u8;

    /// Whether every field is within the bits that the register has for it.
    spec fn fits(&self) -> bool;

    /// The word that stands for the register. A field that is too large
    /// loses its upper bits.
    spec fn reg_value(&self) -> u32;

    /// The register that a word stands for.
    spec fn of_reg(reg: u32) -> Self;

    /// Reads the fields out of a word.
    fn from_reg(reg: u32) -> (register: Self)
        ensures
            register == Self::of_reg(reg),
            register.fits(),
    ;

    /// Puts the fields together as a word.
    fn to_reg(&self) -> (reg: u32)
        ensures
            reg == self.reg_value(),
    ;

    /// A register that fits is what its own word stands for.
    proof fn lemma_round_trip(&self)
        requires
            self.fits(),
        ensures
            Self::of_reg(self.reg_value()) == *self,
    ;

    /// The four bytes of the register, most significant first.
    fn pack(&self) -> (bytes: [u8; 4])
        ensures
            bytes@ == be_bytes(self.reg_value()),
    {
        u32_to_be_bytes(self.to_reg())
    }

    /// The register that four bytes, most significant first, stand for.
    fn unpack(bytes: &[u8; 4]) -> (register: Self)
        ensures
            register == Self::of_reg(from_be_bytes(bytes@[0], bytes@[1], bytes@[2], bytes@[3])),
            register.fits(),
    {
        Self::from_reg(u32_from_be_bytes(bytes))
    }
}

/// Number of hashes computed, in units of 2^24 hashes.
#[derive(Clone, Copy, Debug, PartialEq, Eq, Structural)]
pub struct HashrateReg {
    pub hashrate24: u32,
}

impl HashrateReg {
    /// Number of hashes.
    pub fn hashrate(&self) -> (hashes: u64)
        ensures
            hashes == self.hashrate24 * 0x100_0000,
    {
        (self.hashrate24 as u64) * 0x100_0000
    }
}

impl Register for HashrateReg {
    const REG_NUM: u8 = 0x08;

    open spec fn fits(&self) -> bool {
        true
    }

    open spec fn reg_value(&self) -> u32 {
        self.hashrate24
    }

    open spec fn of_reg(reg: u32) -> Self {
        HashrateReg { hashrate24: reg }
    }

    fn from_reg(reg: u32) -> (register: Self) {
        HashrateReg { hashrate24: reg }
    }

    fn to_reg(&self) -> (reg: u32) {
        self.hashrate24
    }

    proof fn lemma_round_trip(&self) {
    }
}

/// 1 for a flag that is set, 0 for one that is not.
pub open spec fn bit(flag: bool) -> int {
    if flag {
        1
    } else {
        0
    }
}

/// 1 for a flag that is set, 0 for one that is not.
fn bit_of(flag: bool) -> (b: u32)
    ensures
        b == bit(flag),
{
    if flag {
        1
    } else {
        0
    }
}

/// State of the chip's I2C controller: busy in bit 7, error in bit 6, and
/// the request to run a command in bit 0.
#[derive(Clone, Copy, Debug, PartialEq, Eq, Structural)]
pub struct I2cControlFlags {
    /// The controller is busy
    pub busy: bool,
    /// The last transaction failed
    pub error: bool,
    /// Start a transaction
    pub do_command: bool,
}

impl I2cControlFlags {
    /// The byte that stands for the flags.
    pub open spec fn packed(&self) -> u8 {
        (bit(self.busy) * 0x80 + bit(self.error) * 0x40 + bit(self.do_command)) as u8
    }

    /// The flags that a byte stands for.
    pub open spec fn unpacked(byte: u8) -> I2cControlFlags {
        I2cControlFlags {
            busy: byte / 0x80 == 1,
            error: (byte / 0x40) % 2 == 1,
            do_command: byte % 2 == 1,
        }
    }
}

/// Register through which the chip's I2C controller is driven.
#[derive(Clone, Copy, Debug, PartialEq, Eq, Structural)]
pub struct I2cControlReg {
    pub flags: I2cControlFlags,
    /// I2C address in 8-bit form, odd for writing
    pub addr: u8,
    /// Register of the I2C device
    pub reg: u8,
    /// Data read or to be written
    pub data: u8,
}

impl Register for I2cControlReg {
    const REG_NUM: u8 = 0x20;

    open spec fn fits(&self) -> bool {
        true
    }

    open spec fn reg_value(&self) -> u32 {
        from_be_bytes(self.flags.packed(), self.addr, self.reg, self.data)
    }

    open spec fn of_reg(reg: u32) -> Self {
        I2cControlReg {
            flags: I2cControlFlags::unpacked(be_bytes(reg)[0]),
            addr: be_bytes(reg)[1],
            reg: be_bytes(reg)[2],
            data: be_bytes(reg)[3],
        }
    }

    fn from_reg(reg: u32) -> (register: Self) {
        let bytes = u32_to_be_bytes(reg);
        let flags = bytes[0];
        I2cControlReg {
            flags: I2cControlFlags {
                busy: flags / 0x80 == 1,
                error: (flags / 0x40) % 2 == 1,
                do_command: flags % 2 == 1,
            },
            addr: bytes[1],
            reg: bytes[2],
            data: bytes[3],
        }
    }

    fn to_reg(&self) -> (reg: u32) {
        let flags: u32 = bit_of(self.flags.busy) * 0x80 + bit_of(self.flags.error) * 0x40 + bit_of(
            self.flags.do_command,
        );
        flags * 0x100_0000 + (self.addr as u32) * 0x1_0000 + (self.reg as u32) * 0x100
            + self.data as u32
    }

    proof fn lemma_round_trip(&self) {
        lemma_bytes_of_word(self.flags.packed(), self.addr, self.reg, self.data);
    }
}

/// Chip revisions that the driver knows.
#[derive(Clone, Copy, Debug, PartialEq, Eq, Structural)]
pub enum ChipRev {
    Bm1387,
    /// Any other revision, kept as the chip reported it
    CatchAll(u16),
}

/// The number by which the BM1387 reports itself.
pub const CHIP_REV_BM1387_CODE: u16 = 0x1387;

/// The revision of the BM1387.
pub const CHIP_REV_BM1387: ChipRev = ChipRev::Bm1387;

impl ChipRev {
    /// The number that stands for the revision.
    pub open spec fn code(&self) -> u16 {
        match *self {
            ChipRev::Bm1387 => CHIP_REV_BM1387_CODE,
            ChipRev::CatchAll(code) => code,
        }
    }

    /// The revision that a number stands for; a number that is not known is
    /// kept as it is.
    pub open spec fn of_code(code: u16) -> ChipRev {
        if code == CHIP_REV_BM1387_CODE {
            ChipRev::Bm1387
        } else {
            ChipRev::CatchAll(code)
        }
    }

    /// Whether the revision is written in the one way there is for it: a
    /// known revision by its name.
    pub open spec fn fits(&self) -> bool {
        match *self {
            ChipRev::Bm1387 => true,
            ChipRev::CatchAll(code) => code != CHIP_REV_BM1387_CODE,
        }
    }
}

impl Default for ChipRev {
    fn default() -> (revision: ChipRev)
        ensures
            revision == ChipRev::Bm1387,
    {
        ChipRev::Bm1387
    }
}

/// Register that tells revision and address of a chip.
#[derive(Clone, Copy, Debug, PartialEq, Eq, Structural)]
pub struct GetAddressReg {
    pub chip_rev: ChipRev,
    pub reserved1: u8,
    pub addr: u8,
}

impl Register for GetAddressReg {
    const REG_NUM: u8 = 0x00;

    open spec fn fits(&self) -> bool {
        self.chip_rev.fits()
    }

    open spec fn reg_value(&self) -> u32 {
        (self.chip_rev.code() * 0x1_0000 + self.reserved1 * 0x100 + self.addr) as u32
    }

    open spec fn of_reg(reg: u32) -> Self {
        GetAddressReg {
            chip_rev: ChipRev::of_code((reg / 0x1_0000) as u16),
            reserved1: ((reg / 0x100) % 0x100) as u8,
            addr: (reg % 0x100) as u8,
        }
    }

    fn from_reg(reg: u32) -> (register: Self) {
        let code: u16 = (reg / 0x1_0000) as u16;
        GetAddressReg {
            chip_rev: if code == CHIP_REV_BM1387_CODE {
                ChipRev::Bm1387
            } else {
                ChipRev::CatchAll(code)
            },
            reserved1: ((reg / 0x100) % 0x100) as u8,
            addr: (reg % 0x100) as u8,
        }
    }

    fn to_reg(&self) -> (reg: u32) {
        let code: u32 = match self.chip_rev {
            ChipRev::Bm1387 => CHIP_REV_BM1387_CODE as u32,
            ChipRev::CatchAll(code) => code as u32,
        };
        code * 0x1_0000 + (self.reserved1 as u32) * 0x100 + self.addr as u32
    }

    proof fn lemma_round_trip(&self) {
        let code = self.chip_rev.code() as int;
        lemma_quotient_and_remainder(code, self.reserved1 * 0x100 + self.addr, 0x1_0000);
        lemma_quotient_and_remainder(code * 0x100 + self.reserved1, self.addr as int, 0x100);
        lemma_quotient_and_remainder(code, self.reserved1 as int, 0x100);
    }
}

impl GetAddressReg {
    /// The register that `bytes` stand for, if there are four of them.
    pub fn unpack_from_slice(bytes: &[u8]) -> (register: Option<Self>)
        ensures
            register is Some <==> bytes@.len() == 4,
            register is Some ==> register->0 == Self::of_reg(
                from_be_bytes(bytes@[0], bytes@[1], bytes@[2], bytes@[3]),
            ),
    {
        if bytes.len() == 4 {
            let word = [bytes[0], bytes[1], bytes[2], bytes[3]];
            Some(Self::unpack(&word))
        } else {
            None
        }
    }
}

/// Whether `n` is a power of two.
pub open spec fn is_power_of_two(n: nat) -> bool {
    exists|k: nat| n == pow2(k)
}

/// The low `width` bits of `x` in reverse order: bit `k` of `x` becomes bit
/// `width - 1 - k`.
pub open spec fn reversed_bits(x: nat, width: nat) -> nat
    decreases width,
{
    if width == 0 {
        0
    } else {
        2 * reversed_bits(x, (width - 1) as nat) + (x / pow2((width - 1) as nat)) % 2
    }
}

/// The word `x` with its four bytes in reverse order.
pub open spec fn swapped_bytes(x: u32) -> u32 {
    from_be_bytes(be_bytes(x)[3], be_bytes(x)[2], be_bytes(x)[1], be_bytes(x)[0])
}

/// The ticket mask for `difficulty`: the bits of `difficulty - 1` in reverse
/// order, then the bytes in reverse order.
pub open spec fn ticket_mask_for(difficulty: u32) -> u32
    recommends
        difficulty >= 1,
{
    swapped_bytes(reversed_bits((difficulty - 1) as nat, 32) as u32)
}

/// Whether `n` is a power of two.
pub fn check_power_of_two(n: u32) -> (power: bool)
    ensures
        power == is_power_of_two(n as nat),
{
    let mut p: u64 = 1;
    let ghost mut k: nat = 0;
    proof {
        lemma2_to64();
    }
    while p < n as u64
        invariant
            p == pow2(k),
            k == 0 || pow2((k - 1) as nat) < n,
            0 < p <= 0x2_0000_0000,
        decreases 0x2_0000_0000 - p,
    {
        proof {
            lemma_pow2_unfold(k + 1);
            k = k + 1;
        }
        p = p * 2;
    }
    proof {
        if p == n as u64 {
            assert(n as nat == pow2(k));
        } else {
            assert forall|j: nat| n as nat != pow2(j) by {
                if j >= k {
                    if j > k {
                        lemma_pow2_strictly_increases(k, j);
                    }
                } else {
                    if j < k - 1 {
                        lemma_pow2_strictly_increases(j, (k - 1) as nat);
                    }
                }
            }
        }
    }
    p == n as u64
}

/// The 32 bits of `x` in reverse order.
pub fn reverse_bits(x: u32) -> (reversed: u32)
    ensures
        reversed == reversed_bits(x as nat, 32),
{
    let mut acc: u32 = 0;
    let mut rest: u32 = x;
    let mut k: u32 = 0;
    proof {
        lemma2_to64();
    }
    while k < 32
        invariant
            k <= 32,
            acc == reversed_bits(x as nat, k as nat),
            rest == x as nat / pow2(k as nat),
            acc < pow2(k as nat),
            pow2(32) == 0x1_0000_0000,
        decreases 32 - k,
    {
        proof {
            lemma_pow2_unfold((k + 1) as nat);
            lemma_pow2_pos(k as nat);
            lemma_div_denominator(x as int, pow2(k as nat) as int, 2);
            if k + 1 < 32 {
                lemma_pow2_strictly_increases((k + 1) as nat, 32);
            }
        }
        acc = acc * 2 + rest % 2;
        rest = rest / 2;
        k += 1;
    }
    acc
}

/// The word `x` with its four bytes in reverse order.
pub fn swap_bytes(x: u32) -> (swapped: u32)
    ensures
        swapped == swapped_bytes(x),
{
    let b = u32_to_be_bytes(x);
    let swapped = [b[3], b[2], b[1], b[0]];
    u32_from_be_bytes(&swapped)
}

/// Register that holds the difficulty of the chip: the chip returns only
/// nonces whose hash meets it.
#[derive(Clone, Copy, Debug, PartialEq, Eq, Structural)]
pub struct TicketMaskReg {
    /// Difficulty minus one, with bits and bytes as the chip wants them
    pub ticket_mask: u32,
}

/// Message for a difficulty of zero.
pub const DIFFICULTY_TOO_LOW: &'static str = "ASIC difficulty must be at least 1!";

/// Message for a difficulty that is no power of two.
pub const DIFFICULTY_NOT_POWER: &'static str = "ASIC difficulty must be power of 2!";

impl TicketMaskReg {
    /// The register for `difficulty`, which has to be a power of two.
    pub fn new(difficulty: u32) -> (register: Result<Self, Error>)
        ensures
            register is Ok <==> difficulty >= 1 && is_power_of_two(difficulty as nat),
            register is Ok ==> register->Ok_0.ticket_mask == ticket_mask_for(difficulty),
            difficulty == 0 ==> register is Err && register->Err_0.spec_kind()
                == ErrorKindView::General(DIFFICULTY_TOO_LOW@),
            difficulty >= 1 && !is_power_of_two(difficulty as nat) ==> register is Err
                && register->Err_0.spec_kind() == ErrorKindView::General(DIFFICULTY_NOT_POWER@),
    {
        if difficulty == 0 {
            return Err(Error::new(ErrorKind::General(String::from_str(DIFFICULTY_TOO_LOW))));
        }
        if !check_power_of_two(difficulty) {
            return Err(Error::new(ErrorKind::General(String::from_str(DIFFICULTY_NOT_POWER))));
        }
        let ticket_mask = swap_bytes(reverse_bits(difficulty - 1));
        Ok(TicketMaskReg { ticket_mask })
    }
}

impl Register for TicketMaskReg {
    const REG_NUM: u8 = 0x18;

    open spec fn fits(&self) -> bool {
        true
    }

    open spec fn reg_value(&self) -> u32 {
        self.ticket_mask
    }

    open spec fn of_reg(reg: u32) -> Self {
        TicketMaskReg { ticket_mask: reg }
    }

    fn from_reg(reg: u32) -> (register: Self) {
        TicketMaskReg { ticket_mask: reg }
    }

    fn to_reg(&self) -> (reg: u32) {
        self.ticket_mask
    }

    proof fn lemma_round_trip(&self) {
    }
}

/// What the chip does with its TF pin.
#[derive(Clone, Copy, Debug, PartialEq, Eq, Structural)]
pub enum TfSelector {
    /// Shows that the chip hashes
    HashDoing,
    UartReceiving,
    UartTransmitting,
    /// I2C clock
    SCL0,
}

impl TfSelector {
    /// The number that stands for the choice.
    pub open spec fn code(&self) -> int {
        match *self {
            TfSelector::HashDoing => 0,
            TfSelector::UartReceiving => 1,
            TfSelector::UartTransmitting => 2,
            TfSelector::SCL0 => 3,
        }
    }

    /// The choice that a number from 0 to 3 stands for.
    pub open spec fn of_code(code: int) -> TfSelector {
        if code == 0 {
            TfSelector::HashDoing
        } else if code == 1 {
            TfSelector::UartReceiving
        } else if code == 2 {
            TfSelector::UartTransmitting
        } else {
            TfSelector::SCL0
        }
    }
}

/// What the chip does with its RF pin.
#[derive(Clone, Copy, Debug, PartialEq, Eq, Structural)]
pub enum RfSelector {
    OpenDrain,
    /// I2C data
    SDA0,
}

impl RfSelector {
    /// The number that stands for the choice.
    pub open spec fn code(&self) -> int {
        match *self {
            RfSelector::OpenDrain => 0,
            RfSelector::SDA0 => 1,
        }
    }

    /// The choice that a number from 0 to 1 stands for.
    pub open spec fn of_code(code: int) -> RfSelector {
        if code == 0 {
            RfSelector::OpenDrain
        } else {
            RfSelector::SDA0
        }
    }
}

/// The I2C buses of the chip.
#[derive(Clone, Copy, Debug, PartialEq, Eq, Structural)]
pub enum I2cBusSelect {
    Bottom,
    Middle,
}

impl I2cBusSelect {
    /// The number that stands for the bus.
    pub open spec fn code(&self) -> int {
        match *self {
            I2cBusSelect::Bottom => 0,
            I2cBusSelect::Middle => 1,
        }
    }

    /// The bus that a number from 0 to 1 stands for.
    pub open spec fn of_code(code: int) -> I2cBusSelect {
        if code == 0 {
            I2cBusSelect::Bottom
        } else {
            I2cBusSelect::Middle
        }
    }
}

/// Register that sets how the chip talks: baud rate, pin functions and
/// multi-midstate processing.
///
/// Bit 30 holds `not_set_baud`, bit 21 `inv_clock`, bit 16 `i2c_bus`, bit 15
/// `gate_block`, bit 14 `rfs`, bits 8 to 12 `baud_div`, bit 7 `mmen` and
/// bits 5 to 6 `tfs`.
#[derive(Clone, Copy, Debug, PartialEq, Eq, Structural)]
pub struct MiscCtrlReg {
    /// 0 while the baud rate is set, 1 while the chain is initialized
    pub not_set_baud: bool,
    /// Invert the clock pin
    pub inv_clock: bool,
    /// The I2C bus to talk on
    pub i2c_bus: I2cBusSelect,
    /// Make all blocks of the chip ignore work until they are enabled one
    /// by one
    pub gate_block: bool,
    /// Function of the RF pin
    pub rfs: RfSelector,
    /// Divisor of the baud rate clock, at most [`MAX_BAUD_CLOCK_DIV`]
    pub baud_div: u8,
    /// Multi-midstate processing
    pub mmen: bool,
    /// Function of the TF pin
    pub tfs: TfSelector,
}

/// The message for a baud divisor that is too large.
pub open spec fn baud_div_out_of_range(baud_div: usize) -> Seq<char> {
    "divisor "@ + decimal(baud_div as nat) + " is out of range, maximum allowed is "@ + decimal(
        MAX_BAUD_CLOCK_DIV as nat,
    )
}

impl MiscCtrlReg {
    /// The register with the given settings, the pins in their plain
    /// functions and the bottom I2C bus. The divisor must be at most
    /// [`MAX_BAUD_CLOCK_DIV`].
    pub fn new(
        not_set_baud: bool,
        inv_clock: bool,
        baud_div: usize,
        gate_block: bool,
        mmen: bool,
    ) -> (register: Result<Self, Error>)
        ensures
            register is Ok <==> baud_div <= MAX_BAUD_CLOCK_DIV,
            register is Ok ==> register->Ok_0 == (MiscCtrlReg {
                not_set_baud,
                inv_clock,
                baud_div: baud_div as u8,
                gate_block,
                mmen,
                tfs: TfSelector::HashDoing,
                rfs: RfSelector::OpenDrain,
                i2c_bus: I2cBusSelect::Bottom,
            }),
            register is Err ==> register->Err_0.spec_kind() == ErrorKindView::BaudRate(
                baud_div_out_of_range(baud_div),
            ),
    {
        if baud_div > MAX_BAUD_CLOCK_DIV {
            let mut message = String::from_str("divisor ");
            push_decimal(&mut message, baud_div as u64);
            message.append(" is out of range, maximum allowed is ");
            push_decimal(&mut message, MAX_BAUD_CLOCK_DIV as u64);
            assert(message@ =~= baud_div_out_of_range(baud_div));
            return Err(Error::new(ErrorKind::BaudRate(message)));
        }
        Ok(
            MiscCtrlReg {
                not_set_baud,
                inv_clock,
                baud_div: baud_div as u8,
                gate_block,
                mmen,
                tfs: TfSelector::HashDoing,
                rfs: RfSelector::OpenDrain,
                i2c_bus: I2cBusSelect::Bottom,
            },
        )
    }

    /// Switches the I2C controller of the chip to `i2c_bus`, or off.
    ///
    /// The two flags that matter only while the chain is initialized are
    /// put to rest, the pins get their I2C functions or their plain ones,
    /// and the other settings stay.
    pub fn set_i2c(&mut self, i2c_bus: Option<I2cBusSelect>)
        ensures
            *final(self) == (MiscCtrlReg {
                not_set_baud: true,
                gate_block: false,
                tfs: if i2c_bus is Some {
                    TfSelector::SCL0
                } else {
                    TfSelector::HashDoing
                },
                rfs: if i2c_bus is Some {
                    RfSelector::SDA0
                } else {
                    RfSelector::OpenDrain
                },
                i2c_bus: match i2c_bus {
                    Some(bus) => bus,
                    None => I2cBusSelect::Bottom,
                },
                ..*old(self)
            }),
    {
        self.not_set_baud = true;
        self.gate_block = false;
        match i2c_bus {
            Some(bus) => {
                self.tfs = TfSelector::SCL0;
                self.rfs = RfSelector::SDA0;
                self.i2c_bus = bus;
            },
            None => {
                self.tfs = TfSelector::HashDoing;
                self.rfs = RfSelector::OpenDrain;
                self.i2c_bus = I2cBusSelect::Bottom;
            },
        }
    }
}

impl Register for MiscCtrlReg {
    const REG_NUM: u8 = 0x1c;

    open spec fn fits(&self) -> bool {
        self.baud_div < 32
    }

    open spec fn reg_value(&self) -> u32 {
        (bit(self.not_set_baud) * 0x4000_0000 + bit(self.inv_clock) * 0x20_0000
            + self.i2c_bus.code() * 0x1_0000 + bit(self.gate_block) * 0x8000 + self.rfs.code()
            * 0x4000 + (self.baud_div % 32) * 0x100 + bit(self.mmen) * 0x80 + self.tfs.code()
            * 0x20) as u32
    }

    open spec fn of_reg(reg: u32) -> Self {
        MiscCtrlReg {
            not_set_baud: (reg / 0x4000_0000) % 2 == 1,
            inv_clock: (reg / 0x20_0000) % 2 == 1,
            i2c_bus: I2cBusSelect::of_code(((reg / 0x1_0000) % 2) as int),
            gate_block: (reg / 0x8000) % 2 == 1,
            rfs: RfSelector::of_code(((reg / 0x4000) % 2) as int),
            baud_div: ((reg / 0x100) % 32) as u8,
            mmen: (reg / 0x80) % 2 == 1,
            tfs: TfSelector::of_code(((reg / 0x20) % 4) as int),
        }
    }

    fn from_reg(reg: u32) -> (register: Self) {
        let tfs_code: u32 = (reg / 0x20) % 4;
        MiscCtrlReg {
            not_set_baud: (reg / 0x4000_0000) % 2 == 1,
            inv_clock: (reg / 0x20_0000) % 2 == 1,
            i2c_bus: if (reg / 0x1_0000) % 2 == 0 {
                I2cBusSelect::Bottom
            } else {
                I2cBusSelect::Middle
            },
            gate_block: (reg / 0x8000) % 2 == 1,
            rfs: if (reg / 0x4000) % 2 == 0 {
                RfSelector::OpenDrain
            } else {
                RfSelector::SDA0
            },
            baud_div: ((reg / 0x100) % 32) as u8,
            mmen: (reg / 0x80) % 2 == 1,
            tfs: if tfs_code == 0 {
                TfSelector::HashDoing
            } else if tfs_code == 1 {
                TfSelector::UartReceiving
            } else if tfs_code == 2 {
                TfSelector::UartTransmitting
            } else {
                TfSelector::SCL0
            },
        }
    }

    fn to_reg(&self) -> (reg: u32) {
        let i2c_bus: u32 = match self.i2c_bus {
            I2cBusSelect::Bottom => 0,
            I2cBusSelect::Middle => 1,
        };
        let rfs: u32 = match self.rfs {
            RfSelector::OpenDrain => 0,
            RfSelector::SDA0 => 1,
        };
        let tfs: u32 = match self.tfs {
            TfSelector::HashDoing => 0,
            TfSelector::UartReceiving => 1,
            TfSelector::UartTransmitting => 2,
            TfSelector::SCL0 => 3,
        };
        bit_of(self.not_set_baud) * 0x4000_0000 + bit_of(self.inv_clock) * 0x20_0000 + i2c_bus
            * 0x1_0000 + bit_of(self.gate_block) * 0x8000 + rfs * 0x4000 + ((self.baud_div
            % 32) as u32) * 0x100 + bit_of(self.mmen) * 0x80 + tfs * 0x20
    }

    proof fn lemma_round_trip(&self) {
        lemma_misc_ctrl_fields(
            bit(self.not_set_baud),
            bit(self.inv_clock),
            self.i2c_bus.code(),
            bit(self.gate_block),
            self.rfs.code(),
            self.baud_div as int,
            bit(self.mmen),
            self.tfs.code(),
        );
    }
}

/// The word of the fields of a [`MiscCtrlReg`].
pub open spec fn misc_ctrl_word(
    nsb: int,
    inv: int,
    bus: int,
    gate: int,
    rfs: int,
    baud: int,
    mmen: int,
    tfs: int,
) -> int {
    nsb * 0x4000_0000 + inv * 0x20_0000 + bus * 0x1_0000 + gate * 0x8000 + rfs * 0x4000 + baud
        * 0x100 + mmen * 0x80 + tfs * 0x20
}

/// Each field of a [`MiscCtrlReg`] is read back from its place in the word.
pub proof fn lemma_misc_ctrl_fields(
    nsb: int,
    inv: int,
    bus: int,
    gate: int,
    rfs: int,
    baud: int,
    mmen: int,
    tfs: int,
)
    requires
        0 <= nsb < 2,
        0 <= inv < 2,
        0 <= bus < 2,
        0 <= gate < 2,
        0 <= rfs < 2,
        0 <= baud < 32,
        0 <= mmen < 2,
        0 <= tfs < 4,
    ensures
        ({
            let value = misc_ctrl_word(nsb, inv, bus, gate, rfs, baud, mmen, tfs);
            &&& 0 <= value < 0x8000_0000
            &&& (value / 0x4000_0000) % 2 == nsb
            &&& (value / 0x20_0000) % 2 == inv
            &&& (value / 0x1_0000) % 2 == bus
            &&& (value / 0x8000) % 2 == gate
            &&& (value / 0x4000) % 2 == rfs
            &&& (value / 0x100) % 32 == baud
            &&& (value / 0x80) % 2 == mmen
            &&& (value / 0x20) % 4 == tfs
        }),
{
    let from7 = mmen * 4 + tfs;
    let from8 = baud * 8 + from7;
    let from14 = rfs * 0x200 + from8;
    let from15 = gate * 0x400 + from14;
    let from16 = bus * 0x800 + from15;
    let from21 = inv * 0x1_0000 + from16;
    let value = misc_ctrl_word(nsb, inv, bus, gate, rfs, baud, mmen, tfs);
    lemma_field_of_word(value, 0, nsb, from21 * 0x20, 0x4000_0000, 2);
    lemma_field_of_word(value, nsb * 0x100, inv, from16 * 0x20, 0x20_0000, 2);
    lemma_field_of_word(value, nsb * 0x2000 + inv * 0x10, bus, from15 * 0x20, 0x1_0000, 2);
    lemma_field_of_word(value, nsb * 0x4000 + inv * 0x20 + bus, gate, from14 * 0x20, 0x8000, 2);
    lemma_field_of_word(
        value,
        nsb * 0x8000 + inv * 0x40 + bus * 2 + gate,
        rfs,
        from8 * 0x20,
        0x4000,
        2,
    );
    lemma_field_of_word(
        value,
        nsb * 0x2_0000 + inv * 0x100 + bus * 8 + gate * 4 + rfs * 2,
        baud,
        from7 * 0x20,
        0x100,
        32,
    );
    lemma_field_of_word(
        value,
        nsb * 0x40_0000 + inv * 0x2000 + bus * 0x100 + gate * 0x80 + rfs * 0x40 + baud,
        mmen,
        tfs * 0x20,
        0x80,
        2,
    );
    lemma_field_of_word(
        value,
        nsb * 0x80_0000 + inv * 0x4000 + bus * 0x200 + gate * 0x100 + rfs * 0x80 + baud * 2 + mmen,
        tfs,
        0,
        0x20,
        4,
    );
}

/// Setting of the chip's PLL: the crystal frequency is multiplied by `fbdiv`
/// and divided by `refdiv`, `postdiv1` and `postdiv2`.
///
/// Bits 16 to 23 of the register hold `fbdiv`, bits 8 to 13 `refdiv`, bits 4
/// to 6 `postdiv1` and bits 0 to 2 `postdiv2`.
#[derive(Clone, Copy, Debug, PartialEq, Eq, Structural)]
pub struct PllReg {
    pub fbdiv: u8,
    /// From 1 to 63
    pub refdiv: u8,
    /// From 1 to 7
    pub postdiv1: u8,
    /// From 1 to 7 and at most `postdiv1`
    pub postdiv2: u8,
}

impl PllReg {
    /// Whether no divider is zero, so that the setting stands for a
    /// frequency.
    pub open spec fn spec_divides(&self) -> bool {
        self.refdiv > 0 && self.postdiv1 > 0 && self.postdiv2 > 0
    }

    /// Whether no divider is zero.
    #[verifier::when_used_as_spec(spec_divides)]
    pub fn divides(&self) -> (ok: bool)
        ensures
            ok == self.spec_divides(),
    {
        self.refdiv > 0 && self.postdiv1 > 0 && self.postdiv2 > 0
    }

    /// Whether the setting is one that the chip accepts: every divider in
    /// its range, and the second post divider not above the first.
    pub open spec fn valid(&self) -> bool {
        &&& 1 <= self.refdiv <= 63
        &&& 1 <= self.postdiv1 <= 7
        &&& 1 <= self.postdiv2 <= self.postdiv1
    }

    /// The word of the fields of a setting.
    pub open spec fn word(fbdiv: int, refdiv: int, postdiv1: int, postdiv2: int) -> int {
        fbdiv * 0x1_0000 + refdiv * 0x100 + postdiv1 * 0x10 + postdiv2
    }

    /// Each field of a setting is read back from its place in the word.
    pub proof fn lemma_fields(fbdiv: int, refdiv: int, postdiv1: int, postdiv2: int)
        requires
            0 <= fbdiv < 256,
            0 <= refdiv < 64,
            0 <= postdiv1 < 8,
            0 <= postdiv2 < 8,
        ensures
            ({
                let value = Self::word(fbdiv, refdiv, postdiv1, postdiv2);
                &&& 0 <= value < 0x100_0000
                &&& (value / 0x1_0000) % 256 == fbdiv
                &&& (value / 0x100) % 64 == refdiv
                &&& (value / 0x10) % 8 == postdiv1
                &&& value % 8 == postdiv2
            }),
    {
        let value = Self::word(fbdiv, refdiv, postdiv1, postdiv2);
        lemma_field_of_word(value, 0, fbdiv, refdiv * 0x100 + postdiv1 * 0x10 + postdiv2, 0x1_0000, 256);
        lemma_field_of_word(value, fbdiv * 4, refdiv, postdiv1 * 0x10 + postdiv2, 0x100, 64);
        lemma_field_of_word(value, fbdiv * 0x200 + refdiv * 2, postdiv1, postdiv2, 0x10, 8);
        lemma_quotient_and_remainder(fbdiv * 0x2000 + refdiv * 0x20 + postdiv1 * 2, postdiv2, 8);
    }
}

impl Register for PllReg {
    const REG_NUM: u8 = 0x0c;

    open spec fn fits(&self) -> bool {
        self.refdiv < 64 && self.postdiv1 < 8 && self.postdiv2 < 8
    }

    open spec fn reg_value(&self) -> u32 {
        Self::word(
            self.fbdiv as int,
            (self.refdiv % 64) as int,
            (self.postdiv1 % 8) as int,
            (self.postdiv2 % 8) as int,
        ) as u32
    }

    open spec fn of_reg(reg: u32) -> Self {
        PllReg {
            fbdiv: ((reg / 0x1_0000) % 256) as u8,
            refdiv: ((reg / 0x100) % 64) as u8,
            postdiv1: ((reg / 0x10) % 8) as u8,
            postdiv2: (reg % 8) as u8,
        }
    }

    fn from_reg(reg: u32) -> (register: Self) {
        PllReg {
            fbdiv: ((reg / 0x1_0000) % 256) as u8,
            refdiv: ((reg / 0x100) % 64) as u8,
            postdiv1: ((reg / 0x10) % 8) as u8,
            postdiv2: (reg % 8) as u8,
        }
    }

    fn to_reg(&self) -> (reg: u32) {
        (self.fbdiv as u32) * 0x1_0000 + ((self.refdiv % 64) as u32) * 0x100 + ((self.postdiv1
            % 8) as u32) * 0x10 + (self.postdiv2 % 8) as u32
    }

    proof fn lemma_round_trip(&self) {
        Self::lemma_fields(
            self.fbdiv as int,
            self.refdiv as int,
            self.postdiv1 as int,
            self.postdiv2 as int,
        );
    }
}

/// The frequency that the PLL makes of a crystal frequency of `xtal_freq`,
/// kept within `usize`.
pub open spec fn pll_frequency(reg: PllReg, xtal_freq: nat) -> nat
    recommends
        reg.divides(),
{
    let frequency = xtal_freq * reg.fbdiv / (reg.refdiv as int) / (reg.postdiv1 as int) / (
    reg.postdiv2 as int);
    if frequency > usize::MAX {
        usize::MAX as nat
    } else {
        frequency as nat
    }
}

/// A PLL setting with the frequency that it gives at some crystal frequency.
#[derive(Clone, Copy, Debug, PartialEq, Eq, Structural)]
pub struct PllFrequency {
    pub frequency: usize,
    pub reg: PllReg,
}

impl PllFrequency {
    /// The setting `reg` with the frequency that it gives at `xtal_freq`.
    pub fn new(reg: PllReg, xtal_freq: usize) -> (entry: Self)
        requires
            reg.divides(),
        ensures
            entry.reg == reg,
            entry.frequency == pll_frequency(reg, xtal_freq as nat),
    {
        assert(xtal_freq * reg.fbdiv <= 0xffff_ffff_ffff_ffff * 0xff) by (nonlinear_arith)
            requires
                0 <= xtal_freq <= 0xffff_ffff_ffff_ffff,
                0 <= reg.fbdiv <= 0xff,
        ;
        let product: u128 = (xtal_freq as u128) * (reg.fbdiv as u128);
        let frequency: u128 = product / (reg.refdiv as u128) / (reg.postdiv1 as u128) / (
        reg.postdiv2 as u128);
        let frequency: usize = if frequency > usize::MAX as u128 {
            usize::MAX
        } else {
            frequency as usize
        };
        PllFrequency { frequency, reg }
    }
}

/// Crystal frequency that the factory dividers were chosen for.
pub const FACTORY_XTAL_FREQ: usize = 25_000_000;

/// Number of factory dividers.
pub const NUM_FACTORY_DIVIDERS: usize = 114;

/// The PLL settings that the factory firmware uses, as register words, in
/// the order of their frequencies.
pub const BM1387_FACTORY_DIVIDERS: [u32; 114] = [
    0x200241, 0x280241, 0x300241, 0x380241, 0x400241, 0x480241, 0x500241, 0x580241, 0x600241,
    0x680241, 0x700241, 0x780241, 0x800241, 0x610231, 0x410221, 0x620231, 0x420221, 0x640231,
    0x430221, 0x650231, 0x440221, 0x670231, 0x450221, 0x680231, 0x460221, 0x6a0231, 0x470221,
    0x6b0231, 0x480221, 0x6d0231, 0x490221, 0x6e0231, 0x4a0221, 0x700231, 0x4b0221, 0x710231,
    0x4c0221, 0x730231, 0x4d0221, 0x740231, 0x4e0221, 0x760231, 0x4f0221, 0x770231, 0x500221,
    0x790231, 0x510221, 0x7a0231, 0x520221, 0x7c0231, 0x530221, 0x7d0231, 0x540221, 0x7f0231,
    0x550221, 0x800231, 0x560221, 0x570221, 0x580221, 0x590221, 0x5a0221, 0x5b0221, 0x5c0221,
    0x5d0221, 0x5e0221, 0x5f0221, 0x600221, 0x610221, 0x620221, 0x630221, 0x640221, 0x650221,
    0x660221, 0x670221, 0x680221, 0x690221, 0x6a0221, 0x6b0221, 0x6c0221, 0x6d0221, 0x6e0221,
    0x6f0221, 0x700221, 0x710221, 0x720221, 0x730221, 0x740221, 0x750221, 0x760221, 0x770221,
    0x780221, 0x790221, 0x7a0221, 0x7b0221, 0x7c0221, 0x7d0221, 0x7e0221, 0x7f0221, 0x800221,
    0x420211, 0x440211, 0x460211, 0x480211, 0x4a0211, 0x4c0211, 0x4e0211, 0x500211, 0x520211,
    0x540211, 0x560211, 0x580211, 0x5a0211, 0x5c0211, 0x5e0211,
];

/// The frequency in Hz that each factory divider gives with a crystal of
/// [`FACTORY_XTAL_FREQ`].
pub const BM1387_FACTORY_FREQUENCIES: [usize; 114] = [
    100_000_000, 125_000_000, 150_000_000, 175_000_000, 200_000_000, 225_000_000,
    250_000_000, 275_000_000, 300_000_000, 325_000_000, 350_000_000, 375_000_000,
    400_000_000, 404_166_666, 406_250_000, 408_333_333, 412_500_000, 416_666_666,
    418_750_000, 420_833_333, 425_000_000, 429_166_666, 431_250_000, 433_333_333,
    437_500_000, 441_666_666, 443_750_000, 445_833_333, 450_000_000, 454_166_666,
    456_250_000, 458_333_333, 462_500_000, 466_666_666, 468_750_000, 470_833_333,
    475_000_000, 479_166_666, 481_250_000, 483_333_333, 487_500_000, 491_666_666,
    493_750_000, 495_833_333, 500_000_000, 504_166_666, 506_250_000, 508_333_333,
    512_500_000, 516_666_666, 518_750_000, 520_833_333, 525_000_000, 529_166_666,
    531_250_000, 533_333_333, 537_500_000, 543_750_000, 550_000_000, 556_250_000,
    562_500_000, 568_750_000, 575_000_000, 581_250_000, 587_500_000, 593_750_000,
    600_000_000, 606_250_000, 612_500_000, 618_750_000, 625_000_000, 631_250_000,
    637_500_000, 643_750_000, 650_000_000, 656_250_000, 662_500_000, 668_750_000,
    675_000_000, 681_250_000, 687_500_000, 693_750_000, 700_000_000, 706_250_000,
    712_500_000, 718_750_000, 725_000_000, 731_250_000, 737_500_000, 743_750_000,
    750_000_000, 756_250_000, 762_500_000, 768_750_000, 775_000_000, 781_250_000,
    787_500_000, 793_750_000, 800_000_000, 825_000_000, 850_000_000, 875_000_000,
    900_000_000, 925_000_000, 950_000_000, 975_000_000, 1_000_000_000, 1_025_000_000,
    1_050_000_000, 1_075_000_000, 1_100_000_000, 1_125_000_000, 1_150_000_000, 1_175_000_000,
];

/// The factory setting with index `i`.
pub open spec fn factory_entry(i: int) -> PllFrequency
    recommends
        0 <= i < NUM_FACTORY_DIVIDERS,
{
    PllFrequency {
        frequency: BM1387_FACTORY_FREQUENCIES@[i],
        reg: PllReg::of_reg(BM1387_FACTORY_DIVIDERS@[i]),
    }
}

/// The factory settings, in order.
pub open spec fn factory_table() -> Seq<PllFrequency> {
    Seq::new(NUM_FACTORY_DIVIDERS as nat, |i: int| factory_entry(i))
}

/// The frequency that a factory divider gives at the factory crystal. All of
/// them divide the crystal frequency by two before the PLL, and none uses
/// the second post divider.
pub open spec fn factory_frequency(fbdiv: u8, postdiv1: u8) -> nat {
    pll_frequency(PllReg { fbdiv, refdiv: 2, postdiv1, postdiv2: 1 }, FACTORY_XTAL_FREQ as nat)
}

/// What [`lemma_factory_entry`] shows of the factory setting with index `i`.
pub open spec fn factory_entry_checked(i: int) -> bool {
    &&& factory_entry(i).reg.divides()
    &&& factory_entry(i).reg.valid()
    &&& pll_frequency(factory_entry(i).reg, FACTORY_XTAL_FREQ as nat) == factory_entry(i).frequency
    &&& i > 0 ==> factory_entry(i - 1).frequency < factory_entry(i).frequency
}

/// [`lemma_factory_entry`] for the entries from 0 up to 19.
proof fn lemma_factory_entries_first(i: int)
    requires
        0 <= i < 19,
    ensures
        factory_entry_checked(i),
{
    if i == 0 {
        assert(factory_frequency(0x20, 4) == 100_000_000) by (nonlinear_arith);
    } else if i == 1 {
        assert(factory_frequency(0x28, 4) == 125_000_000) by (nonlinear_arith);
    } else if i == 2 {
        assert(factory_frequency(0x30, 4) == 150_000_000) by (nonlinear_arith);
    } else if i == 3 {
        assert(factory_frequency(0x38, 4) == 175_000_000) by (nonlinear_arith);
    } else if i == 4 {
        assert(factory_frequency(0x40, 4) == 200_000_000) by (nonlinear_arith);
    } else if i == 5 {
        assert(factory_frequency(0x48, 4) == 225_000_000) by (nonlinear_arith);
    } else if i == 6 {
        assert(factory_frequency(0x50, 4) == 250_000_000) by (nonlinear_arith);
    } else if i == 7 {
        assert(factory_frequency(0x58, 4) == 275_000_000) by (nonlinear_arith);
    } else if i == 8 {
        assert(factory_frequency(0x60, 4) == 300_000_000) by (nonlinear_arith);
    } else if i == 9 {
        assert(factory_frequency(0x68, 4) == 325_000_000) by (nonlinear_arith);
    } else if i == 10 {
        assert(factory_frequency(0x70, 4) == 350_000_000) by (nonlinear_arith);
    } else if i == 11 {
        assert(factory_frequency(0x78, 4) == 375_000_000) by (nonlinear_arith);
    } else if i == 12 {
        assert(factory_frequency(0x80, 4) == 400_000_000) by (nonlinear_arith);
    } else if i == 13 {
        assert(factory_frequency(0x61, 3) == 404_166_666) by (nonlinear_arith);
    } else if i == 14 {
        assert(factory_frequency(0x41, 2) == 406_250_000) by (nonlinear_arith);
    } else if i == 15 {
        assert(factory_frequency(0x62, 3) == 408_333_333) by (nonlinear_arith);
    } else if i == 16 {
        assert(factory_frequency(0x42, 2) == 412_500_000) by (nonlinear_arith);
    } else if i == 17 {
        assert(factory_frequency(0x64, 3) == 416_666_666) by (nonlinear_arith);
    } else if i == 18 {
        assert(factory_frequency(0x43, 2) == 418_750_000) by (nonlinear_arith);
    }
}

/// [`lemma_factory_entry`] for the entries from 19 up to 38.
proof fn lemma_factory_entries_second(i: int)
    requires
        19 <= i < 38,
    ensures
        factory_entry_checked(i),
{
    if i == 19 {
        assert(factory_frequency(0x65, 3) == 420_833_333) by (nonlinear_arith);
    } else if i == 20 {
        assert(factory_frequency(0x44, 2) == 425_000_000) by (nonlinear_arith);
    } else if i == 21 {
        assert(factory_frequency(0x67, 3) == 429_166_666) by (nonlinear_arith);
    } else if i == 22 {
        assert(factory_frequency(0x45, 2) == 431_250_000) by (nonlinear_arith);
    } else if i == 23 {
        assert(factory_frequency(0x68, 3) == 433_333_333) by (nonlinear_arith);
    } else if i == 24 {
        assert(factory_frequency(0x46, 2) == 437_500_000) by (nonlinear_arith);
    } else if i == 25 {
        assert(factory_frequency(0x6a, 3) == 441_666_666) by (nonlinear_arith);
    } else if i == 26 {
        assert(factory_frequency(0x47, 2) == 443_750_000) by (nonlinear_arith);
    } else if i == 27 {
        assert(factory_frequency(0x6b, 3) == 445_833_333) by (nonlinear_arith);
    } else if i == 28 {
        assert(factory_frequency(0x48, 2) == 450_000_000) by (nonlinear_arith);
    } else if i == 29 {
        assert(factory_frequency(0x6d, 3) == 454_166_666) by (nonlinear_arith);
    } else if i == 30 {
        assert(factory_frequency(0x49, 2) == 456_250_000) by (nonlinear_arith);
    } else if i == 31 {
        assert(factory_frequency(0x6e, 3) == 458_333_333) by (nonlinear_arith);
    } else if i == 32 {
        assert(factory_frequency(0x4a, 2) == 462_500_000) by (nonlinear_arith);
    } else if i == 33 {
        assert(factory_frequency(0x70, 3) == 466_666_666) by (nonlinear_arith);
    } else if i == 34 {
        assert(factory_frequency(0x4b, 2) == 468_750_000) by (nonlinear_arith);
    } else if i == 35 {
        assert(factory_frequency(0x71, 3) == 470_833_333) by (nonlinear_arith);
    } else if i == 36 {
        assert(factory_frequency(0x4c, 2) == 475_000_000) by (nonlinear_arith);
    } else if i == 37 {
        assert(factory_frequency(0x73, 3) == 479_166_666) by (nonlinear_arith);
    }
}

/// [`lemma_factory_entry`] for the entries from 38 up to 57.
proof fn lemma_factory_entries_third(i: int)
    requires
        38 <= i < 57,
    ensures
        factory_entry_checked(i),
{
    if i == 38 {
        assert(factory_frequency(0x4d, 2) == 481_250_000) by (nonlinear_arith);
    } else if i == 39 {
        assert(factory_frequency(0x74, 3) == 483_333_333) by (nonlinear_arith);
    } else if i == 40 {
        assert(factory_frequency(0x4e, 2) == 487_500_000) by (nonlinear_arith);
    } else if i == 41 {
        assert(factory_frequency(0x76, 3) == 491_666_666) by (nonlinear_arith);
    } else if i == 42 {
        assert(factory_frequency(0x4f, 2) == 493_750_000) by (nonlinear_arith);
    } else if i == 43 {
        assert(factory_frequency(0x77, 3) == 495_833_333) by (nonlinear_arith);
    } else if i == 44 {
        assert(factory_frequency(0x50, 2) == 500_000_000) by (nonlinear_arith);
    } else if i == 45 {
        assert(factory_frequency(0x79, 3) == 504_166_666) by (nonlinear_arith);
    } else if i == 46 {
        assert(factory_frequency(0x51, 2) == 506_250_000) by (nonlinear_arith);
    } else if i == 47 {
        assert(factory_frequency(0x7a, 3) == 508_333_333) by (nonlinear_arith);
    } else if i == 48 {
        assert(factory_frequency(0x52, 2) == 512_500_000) by (nonlinear_arith);
    } else if i == 49 {
        assert(factory_frequency(0x7c, 3) == 516_666_666) by (nonlinear_arith);
    } else if i == 50 {
        assert(factory_frequency(0x53, 2) == 518_750_000) by (nonlinear_arith);
    } else if i == 51 {
        assert(factory_frequency(0x7d, 3) == 520_833_333) by (nonlinear_arith);
    } else if i == 52 {
        assert(factory_frequency(0x54, 2) == 525_000_000) by (nonlinear_arith);
    } else if i == 53 {
        assert(factory_frequency(0x7f, 3) == 529_166_666) by (nonlinear_arith);
    } else if i == 54 {
        assert(factory_frequency(0x55, 2) == 531_250_000) by (nonlinear_arith);
    } else if i == 55 {
        assert(factory_frequency(0x80, 3) == 533_333_333) by (nonlinear_arith);
    } else if i == 56 {
        assert(factory_frequency(0x56, 2) == 537_500_000) by (nonlinear_arith);
    }
}

/// [`lemma_factory_entry`] for the entries from 57 up to 76.
proof fn lemma_factory_entries_fourth(i: int)
    requires
        57 <= i < 76,
    ensures
        factory_entry_checked(i),
{
    if i == 57 {
        assert(factory_frequency(0x57, 2) == 543_750_000) by (nonlinear_arith);
    } else if i == 58 {
        assert(factory_frequency(0x58, 2) == 550_000_000) by (nonlinear_arith);
    } else if i == 59 {
        assert(factory_frequency(0x59, 2) == 556_250_000) by (nonlinear_arith);
    } else if i == 60 {
        assert(factory_frequency(0x5a, 2) == 562_500_000) by (nonlinear_arith);
    } else if i == 61 {
        assert(factory_frequency(0x5b, 2) == 568_750_000) by (nonlinear_arith);
    } else if i == 62 {
        assert(factory_frequency(0x5c, 2) == 575_000_000) by (nonlinear_arith);
    } else if i == 63 {
        assert(factory_frequency(0x5d, 2) == 581_250_000) by (nonlinear_arith);
    } else if i == 64 {
        assert(factory_frequency(0x5e, 2) == 587_500_000) by (nonlinear_arith);
    } else if i == 65 {
        assert(factory_frequency(0x5f, 2) == 593_750_000) by (nonlinear_arith);
    } else if i == 66 {
        assert(factory_frequency(0x60, 2) == 600_000_000) by (nonlinear_arith);
    } else if i == 67 {
        assert(factory_frequency(0x61, 2) == 606_250_000) by (nonlinear_arith);
    } else if i == 68 {
        assert(factory_frequency(0x62, 2) == 612_500_000) by (nonlinear_arith);
    } else if i == 69 {
        assert(factory_frequency(0x63, 2) == 618_750_000) by (nonlinear_arith);
    } else if i == 70 {
        assert(factory_frequency(0x64, 2) == 625_000_000) by (nonlinear_arith);
    } else if i == 71 {
        assert(factory_frequency(0x65, 2) == 631_250_000) by (nonlinear_arith);
    } else if i == 72 {
        assert(factory_frequency(0x66, 2) == 637_500_000) by (nonlinear_arith);
    } else if i == 73 {
        assert(factory_frequency(0x67, 2) == 643_750_000) by (nonlinear_arith);
    } else if i == 74 {
        assert(factory_frequency(0x68, 2) == 650_000_000) by (nonlinear_arith);
    } else if i == 75 {
        assert(factory_frequency(0x69, 2) == 656_250_000) by (nonlinear_arith);
    }
}

/// [`lemma_factory_entry`] for the entries from 76 up to 95.
proof fn lemma_factory_entries_fifth(i: int)
    requires
        76 <= i < 95,
    ensures
        factory_entry_checked(i),
{
    if i == 76 {
        assert(factory_frequency(0x6a, 2) == 662_500_000) by (nonlinear_arith);
    } else if i == 77 {
        assert(factory_frequency(0x6b, 2) == 668_750_000) by (nonlinear_arith);
    } else if i == 78 {
        assert(factory_frequency(0x6c, 2) == 675_000_000) by (nonlinear_arith);
    } else if i == 79 {
        assert(factory_frequency(0x6d, 2) == 681_250_000) by (nonlinear_arith);
    } else if i == 80 {
        assert(factory_frequency(0x6e, 2) == 687_500_000) by (nonlinear_arith);
    } else if i == 81 {
        assert(factory_frequency(0x6f, 2) == 693_750_000) by (nonlinear_arith);
    } else if i == 82 {
        assert(factory_frequency(0x70, 2) == 700_000_000) by (nonlinear_arith);
    } else if i == 83 {
        assert(factory_frequency(0x71, 2) == 706_250_000) by (nonlinear_arith);
    } else if i == 84 {
        assert(factory_frequency(0x72, 2) == 712_500_000) by (nonlinear_arith);
    } else if i == 85 {
        assert(factory_frequency(0x73, 2) == 718_750_000) by (nonlinear_arith);
    } else if i == 86 {
        assert(factory_frequency(0x74, 2) == 725_000_000) by (nonlinear_arith);
    } else if i == 87 {
        assert(factory_frequency(0x75, 2) == 731_250_000) by (nonlinear_arith);
    } else if i == 88 {
        assert(factory_frequency(0x76, 2) == 737_500_000) by (nonlinear_arith);
    } else if i == 89 {
        assert(factory_frequency(0x77, 2) == 743_750_000) by (nonlinear_arith);
    } else if i == 90 {
        assert(factory_frequency(0x78, 2) == 750_000_000) by (nonlinear_arith);
    } else if i == 91 {
        assert(factory_frequency(0x79, 2) == 756_250_000) by (nonlinear_arith);
    } else if i == 92 {
        assert(factory_frequency(0x7a, 2) == 762_500_000) by (nonlinear_arith);
    } else if i == 93 {
        assert(factory_frequency(0x7b, 2) == 768_750_000) by (nonlinear_arith);
    } else if i == 94 {
        assert(factory_frequency(0x7c, 2) == 775_000_000) by (nonlinear_arith);
    }
}

/// [`lemma_factory_entry`] for the entries from 95 up to 114.
proof fn lemma_factory_entries_sixth(i: int)
    requires
        95 <= i < 114,
    ensures
        factory_entry_checked(i),
{
    if i == 95 {
        assert(factory_frequency(0x7d, 2) == 781_250_000) by (nonlinear_arith);
    } else if i == 96 {
        assert(factory_frequency(0x7e, 2) == 787_500_000) by (nonlinear_arith);
    } else if i == 97 {
        assert(factory_frequency(0x7f, 2) == 793_750_000) by (nonlinear_arith);
    } else if i == 98 {
        assert(factory_frequency(0x80, 2) == 800_000_000) by (nonlinear_arith);
    } else if i == 99 {
        assert(factory_frequency(0x42, 1) == 825_000_000) by (nonlinear_arith);
    } else if i == 100 {
        assert(factory_frequency(0x44, 1) == 850_000_000) by (nonlinear_arith);
    } else if i == 101 {
        assert(factory_frequency(0x46, 1) == 875_000_000) by (nonlinear_arith);
    } else if i == 102 {
        assert(factory_frequency(0x48, 1) == 900_000_000) by (nonlinear_arith);
    } else if i == 103 {
        assert(factory_frequency(0x4a, 1) == 925_000_000) by (nonlinear_arith);
    } else if i == 104 {
        assert(factory_frequency(0x4c, 1) == 950_000_000) by (nonlinear_arith);
    } else if i == 105 {
        assert(factory_frequency(0x4e, 1) == 975_000_000) by (nonlinear_arith);
    } else if i == 106 {
        assert(factory_frequency(0x50, 1) == 1_000_000_000) by (nonlinear_arith);
    } else if i == 107 {
        assert(factory_frequency(0x52, 1) == 1_025_000_000) by (nonlinear_arith);
    } else if i == 108 {
        assert(factory_frequency(0x54, 1) == 1_050_000_000) by (nonlinear_arith);
    } else if i == 109 {
        assert(factory_frequency(0x56, 1) == 1_075_000_000) by (nonlinear_arith);
    } else if i == 110 {
        assert(factory_frequency(0x58, 1) == 1_100_000_000) by (nonlinear_arith);
    } else if i == 111 {
        assert(factory_frequency(0x5a, 1) == 1_125_000_000) by (nonlinear_arith);
    } else if i == 112 {
        assert(factory_frequency(0x5c, 1) == 1_150_000_000) by (nonlinear_arith);
    } else if i == 113 {
        assert(factory_frequency(0x5e, 1) == 1_175_000_000) by (nonlinear_arith);
    }
}

/// Every factory setting is one that the chip accepts, is listed with the
/// frequency that it gives at the factory crystal, and gives a higher
/// frequency than the setting before it.
pub proof fn lemma_factory_entry(i: int)
    requires
        0 <= i < NUM_FACTORY_DIVIDERS,
    ensures
        factory_entry_checked(i),
{
    if i < 19 {
        lemma_factory_entries_first(i);
    } else if i < 38 {
        lemma_factory_entries_second(i);
    } else if i < 57 {
        lemma_factory_entries_third(i);
    } else if i < 76 {
        lemma_factory_entries_fourth(i);
    } else if i < 95 {
        lemma_factory_entries_fifth(i);
    } else {
        lemma_factory_entries_sixth(i);
    }
}

/// The frequencies of the factory settings rise.
pub proof fn lemma_factory_table_rises(i: int, j: int)
    requires
        0 <= i < j < NUM_FACTORY_DIVIDERS,
    ensures
        factory_entry(i).frequency < factory_entry(j).frequency,
    decreases j - i,
{
    lemma_factory_entry(j);
    if i < j - 1 {
        lemma_factory_table_rises(i, j - 1);
    }
}

/// Distance between two frequencies.
pub open spec fn spec_distance(a: usize, b: usize) -> usize {
    if a >= b {
        (a - b) as usize
    } else {
        (b - a) as usize
    }
}

/// Distance between two frequencies.
#[verifier::when_used_as_spec(spec_distance)]
pub fn distance(a: usize, b: usize) -> (d: usize)
    ensures
        d == spec_distance(a, b),
{
    if a >= b {
        a - b
    } else {
        b - a
    }
}

/// Whether the frequencies of `table` never fall from one entry to the next.
pub open spec fn sorted_by_frequency(table: Seq<PllFrequency>) -> bool {
    forall|i: int, j: int| 0 <= i <= j < table.len() ==> table[i].frequency <= table[j].frequency
}

/// Whether the frequencies of `table` rise from each entry to the next.
pub open spec fn strictly_sorted_by_frequency(table: Seq<PllFrequency>) -> bool {
    forall|i: int, j: int| 0 <= i < j < table.len() ==> table[i].frequency < table[j].frequency
}

/// Whether every entry of `table` has the frequency that its setting gives
/// at `xtal_freq`.
pub open spec fn computed_for(table: Seq<PllFrequency>, xtal_freq: nat) -> bool {
    forall|i: int|
        0 <= i < table.len() ==> (#[trigger] table[i]).reg.divides() && table[i].frequency
            == pll_frequency(table[i].reg, xtal_freq)
}

/// Whether `target` lies between the lowest and the highest frequency of a
/// sorted `table`.
pub open spec fn in_table_range(table: Seq<PllFrequency>, target: usize) -> bool {
    table.len() > 0 && table.first().frequency <= target <= table.last().frequency
}

/// Whether entry `k` is what a lookup of `target` may return: no entry is
/// nearer to `target`, and of the entries that are as near none has a lower
/// frequency.
pub open spec fn is_lookup_result(table: Seq<PllFrequency>, target: usize, k: int) -> bool {
    &&& 0 <= k < table.len()
    &&& forall|j: int|
        0 <= j < table.len() ==> distance(table[k].frequency, target) <= distance(
            (#[trigger] table[j]).frequency,
            target,
        )
    &&& forall|j: int|
        0 <= j < table.len() && distance((#[trigger] table[j]).frequency, target) == distance(
            table[k].frequency,
            target,
        ) ==> table[k].frequency <= table[j].frequency
}

/// The message for a frequency outside the table.
pub open spec fn frequency_out_of_range(target: usize) -> Seq<char> {
    "Requested frequency "@ + decimal(target as nat) + " out of range!"@
}

/// The place of a new entry with frequency `frequency` in a sorted `table`:
/// behind every entry that is not higher.
pub open spec fn place_in_order(table: Seq<PllFrequency>, frequency: usize) -> int
    decreases table.len(),
{
    if table.len() == 0 {
        0
    } else if table.last().frequency <= frequency {
        table.len() as int
    } else {
        place_in_order(table.drop_last(), frequency)
    }
}

/// `table` with `entry` put in its place.
pub open spec fn inserted_in_order(table: Seq<PllFrequency>, entry: PllFrequency) -> Seq<
    PllFrequency,
> {
    table.insert(place_in_order(table, entry.frequency), entry)
}

/// The place of a new entry is within the table, everything before it is
/// not higher than the entry and everything from it on is higher.
pub proof fn lemma_place_in_order(table: Seq<PllFrequency>, frequency: usize)
    requires
        sorted_by_frequency(table),
    ensures
        0 <= place_in_order(table, frequency) <= table.len(),
        forall|j: int|
            0 <= j < place_in_order(table, frequency) ==> (#[trigger] table[j]).frequency
                <= frequency,
        forall|j: int|
            place_in_order(table, frequency) <= j < table.len() ==> (#[trigger] table[j]).frequency
                > frequency,
    decreases table.len(),
{
    if table.len() > 0 && table.last().frequency > frequency {
        let shorter = table.drop_last();
        assert forall|i: int, j: int| 0 <= i <= j < shorter.len() implies shorter[i].frequency
            <= shorter[j].frequency by {
            assert(shorter[i] == table[i] && shorter[j] == table[j]);
        }
        lemma_place_in_order(shorter, frequency);
        let place = place_in_order(table, frequency);
        assert forall|j: int| 0 <= j < place implies (#[trigger] table[j]).frequency
            <= frequency by {
            assert(shorter[j] == table[j]);
        }
        assert forall|j: int| place <= j < table.len() implies (#[trigger] table[j]).frequency
            > frequency by {
            if j < shorter.len() {
                assert(shorter[j] == table[j]);
            }
        }
    }
}

/// Putting an entry in its place keeps a table sorted, and keeps it
/// computed for the crystal frequency that the entry is computed for.
pub proof fn lemma_inserted_in_order(table: Seq<PllFrequency>, entry: PllFrequency, xtal_freq: nat)
    requires
        sorted_by_frequency(table),
    ensures
        sorted_by_frequency(inserted_in_order(table, entry)),
        inserted_in_order(table, entry).len() == table.len() + 1,
        computed_for(table, xtal_freq) && entry.reg.divides() && entry.frequency == pll_frequency(
            entry.reg,
            xtal_freq,
        ) ==> computed_for(inserted_in_order(table, entry), xtal_freq),
{
    lemma_place_in_order(table, entry.frequency);
    let place = place_in_order(table, entry.frequency);
    let grown = inserted_in_order(table, entry);
    assert forall|i: int, j: int| 0 <= i <= j < grown.len() implies grown[i].frequency
        <= grown[j].frequency by {
        if i < place {
            assert(grown[i] == table[i]);
        } else if i > place {
            assert(grown[i] == table[i - 1]);
        }
        if j < place {
            assert(grown[j] == table[j]);
        } else if j > place {
            assert(grown[j] == table[j - 1]);
        }
    }
    if computed_for(table, xtal_freq) && entry.reg.divides() && entry.frequency == pll_frequency(
        entry.reg,
        xtal_freq,
    ) {
        assert forall|i: int| 0 <= i < grown.len() implies (#[trigger] grown[i]).reg.divides()
            && grown[i].frequency == pll_frequency(grown[i].reg, xtal_freq) by {
            if i < place {
                assert(grown[i] == table[i]);
            } else if i > place {
                assert(grown[i] == table[i - 1]);
            }
        }
    }
}

/// Puts `entry` into the sorted `table` behind every entry that is not
/// higher.
pub fn insert_in_order(table: &mut Vec<PllFrequency>, entry: PllFrequency)
    requires
        sorted_by_frequency(old(table)@),
    ensures
        final(table)@ == inserted_in_order(old(table)@, entry),
        sorted_by_frequency(final(table)@),
{
    let mut place: usize = table.len();
    assert(table@.subrange(0, place as int) =~= table@);
    while place > 0 && table[place - 1].frequency > entry.frequency
        invariant
            place <= table.len(),
            table@ == old(table)@,
            place_in_order(table@, entry.frequency) == place_in_order(
                table@.subrange(0, place as int),
                entry.frequency,
            ),
        decreases place,
    {
        proof {
            let prefix = table@.subrange(0, place as int);
            assert(prefix.last() == table@[place - 1]);
            assert(prefix.drop_last() =~= table@.subrange(0, place - 1));
        }
        place -= 1;
    }
    proof {
        assert(table@.subrange(0, table@.len() as int) =~= table@);
        let prefix = table@.subrange(0, place as int);
        if place > 0 {
            assert(prefix.last() == table@[place - 1]);
        }
        assert(place_in_order(prefix, entry.frequency) == place);
        lemma_inserted_in_order(table@, entry, 0);
    }
    table.insert(place, entry);
}

/// Table of PLL settings sorted by the frequency that each gives.
#[derive(Debug)]
pub struct PllTable {
    /// Crystal frequency that the table was computed for
    xtal_freq: usize,
    table: Vec<PllFrequency>,
}

impl PllTable {
    /// The crystal frequency that the table was computed for.
    pub closed spec fn xtal(&self) -> usize {
        self.xtal_freq
    }

    /// The entries of the table, in order.
    pub closed spec fn entries(&self) -> Seq<PllFrequency> {
        self.table@
    }

    /// The entries are sorted by frequency.
    pub open spec fn wf(&self) -> bool {
        sorted_by_frequency(self.entries())
    }

    /// The table with the entries of `table`, which the caller has sorted.
    pub fn new(xtal_freq: usize, table: Vec<PllFrequency>) -> (pll_table: Self)
        ensures
            pll_table.xtal() == xtal_freq,
            pll_table.entries() == table@,
    {
        PllTable { table, xtal_freq }
    }

    /// Number of entries.
    pub fn len(&self) -> (n: usize)
        ensures
            n == self.entries().len(),
    {
        self.table.len()
    }

    /// The entry with index `i`, if there is one.
    pub fn get(&self, i: usize) -> (entry: Option<PllFrequency>)
        ensures
            entry == if i < self.entries().len() {
                Some(self.entries()[i as int])
            } else {
                None
            },
    {
        if i < self.table.len() {
            Some(self.table[i])
        } else {
            None
        }
    }

    /// The table of the factory settings, each with the frequency that it
    /// gives at `xtal_freq`, sorted by frequency. The settings were chosen
    /// for a crystal of 25 MHz, and the table is made for no other.
    pub fn build_pll_table(xtal_freq: usize) -> (pll_table: Self)
        requires
            xtal_freq == FACTORY_XTAL_FREQ,
        ensures
            pll_table.wf(),
            pll_table.xtal() == xtal_freq,
            pll_table.entries() == factory_table(),
            strictly_sorted_by_frequency(pll_table.entries()),
            computed_for(pll_table.entries(), xtal_freq as nat),
    {
        let mut table: Vec<PllFrequency> = Vec::new();
        let mut i: usize = 0;
        while i < NUM_FACTORY_DIVIDERS
            invariant
                i <= NUM_FACTORY_DIVIDERS,
                xtal_freq == FACTORY_XTAL_FREQ,
                sorted_by_frequency(table@),
                table@ == Seq::new(i as nat, |j: int| factory_entry(j)),
            decreases NUM_FACTORY_DIVIDERS - i,
        {
            proof {
                lemma_factory_entry(i as int);
            }
            let reg = PllReg::from_reg(BM1387_FACTORY_DIVIDERS[i]);
            let entry = PllFrequency::new(reg, xtal_freq);
            proof {
                assert(entry == factory_entry(i as int));
                if i > 0 {
                    assert(table@.last() == factory_entry(i - 1));
                }
                assert(place_in_order(table@, entry.frequency) == i);
                assert(table@.insert(i as int, entry) =~= Seq::new(
                    (i + 1) as nat,
                    |j: int| factory_entry(j),
                ));
            }
            insert_in_order(&mut table, entry);
            i += 1;
        }
        proof {
            assert(table@ =~= factory_table());
            assert forall|a: int, b: int| 0 <= a < b < table@.len() implies table@[a].frequency
                < table@[b].frequency by {
                lemma_factory_table_rises(a, b);
            }
            assert forall|k: int| 0 <= k < table@.len() implies (#[trigger] table@[k]).reg.divides()
                && table@[k].frequency == pll_frequency(table@[k].reg, xtal_freq as nat) by {
                lemma_factory_entry(k);
            }
        }
        PllTable { table, xtal_freq }
    }

    /// The entry whose frequency is nearest to `target_freq`; of two that are
    /// as near, the lower one. A frequency below the lowest or above the
    /// highest of the table is an error.
    pub fn lookup(&self, target_freq: usize) -> (found: Result<PllFrequency, Error>)
        requires
            self.wf(),
        ensures
            found is Ok <==> in_table_range(self.entries(), target_freq),
            found is Ok ==> exists|k: int|
                is_lookup_result(self.entries(), target_freq, k) && found->Ok_0
                    == #[trigger] self.entries()[k],
            found is Err ==> found->Err_0.spec_kind() == ErrorKindView::PLL(
                frequency_out_of_range(target_freq),
            ),
    {
        let n = self.table.len();
        let mut low: usize = 0;
        let mut high: usize = n;
        while low < high
            invariant
                low <= high <= n,
                n == self.table@.len(),
                self.wf(),
                forall|j: int| 0 <= j < low ==> (#[trigger] self.table@[j]).frequency < target_freq,
                forall|j: int|
                    high <= j < n ==> (#[trigger] self.table@[j]).frequency >= target_freq,
            decreases high - low,
        {
            let mid = low + (high - low) / 2;
            if self.table[mid].frequency < target_freq {
                low = mid + 1;
            } else {
                high = mid;
            }
        }
        let ghost entries = self.entries();
        if low < n && self.table[low].frequency == target_freq {
            proof {
                assert(is_lookup_result(entries, target_freq, low as int));
                assert(entries.first().frequency <= entries[low as int].frequency);
                assert(entries[low as int].frequency <= entries.last().frequency);
            }
            return Ok(self.table[low]);
        }
        if low == 0 || low >= n {
            let mut message = String::from_str("Requested frequency ");
            push_decimal(&mut message, target_freq as u64);
            message.append(" out of range!");
            proof {
                assert(message@ =~= frequency_out_of_range(target_freq));
                if n > 0 {
                    if low == 0 {
                        assert(entries[0].frequency > target_freq);
                    } else {
                        assert(entries[n - 1].frequency < target_freq);
                    }
                }
            }
            return Err(Error::new(ErrorKind::PLL(message)));
        }
        let below = self.table[low - 1];
        let above = self.table[low];
        proof {
            assert(entries.first().frequency <= below.frequency);
            assert(above.frequency <= entries.last().frequency);
        }
        if distance(below.frequency, target_freq) <= distance(above.frequency, target_freq) {
            proof {
                assert forall|j: int| 0 <= j < entries.len() implies distance(
                    below.frequency,
                    target_freq,
                ) <= distance((#[trigger] entries[j]).frequency, target_freq) by {
                    if j < low {
                        assert(entries[j].frequency <= entries[low - 1].frequency);
                    } else {
                        assert(entries[low as int].frequency <= entries[j].frequency);
                    }
                }
                assert forall|j: int|
                    0 <= j < entries.len() && distance(
                        (#[trigger] entries[j]).frequency,
                        target_freq,
                    ) == distance(below.frequency, target_freq) implies below.frequency
                    <= entries[j].frequency by {
                    if j < low {
                        assert(entries[j].frequency <= entries[low - 1].frequency);
                    }
                }
                assert(is_lookup_result(entries, target_freq, low - 1));
            }
            Ok(below)
        } else {
            proof {
                assert forall|j: int| 0 <= j < entries.len() implies distance(
                    above.frequency,
                    target_freq,
                ) <= distance((#[trigger] entries[j]).frequency, target_freq) by {
                    if j < low {
                        assert(entries[j].frequency <= entries[low - 1].frequency);
                    } else {
                        assert(entries[low as int].frequency <= entries[j].frequency);
                    }
                }
                assert forall|j: int|
                    0 <= j < entries.len() && distance(
                        (#[trigger] entries[j]).frequency,
                        target_freq,
                    ) == distance(above.frequency, target_freq) implies above.frequency
                    <= entries[j].frequency by {
                    if j < low {
                        assert(entries[j].frequency <= entries[low - 1].frequency);
                    } else {
                        assert(entries[low as int].frequency <= entries[j].frequency);
                    }
                }
                assert(is_lookup_result(entries, target_freq, low as int));
            }
            Ok(above)
        }
    }
}

/// Looking up a frequency of the table finds an entry with that frequency,
/// and where no two entries have one frequency, the very entry.
pub proof fn lemma_lookup_of_table_frequency(table: Seq<PllFrequency>, i: int, k: int)
    requires
        sorted_by_frequency(table),
        0 <= i < table.len(),
        is_lookup_result(table, table[i].frequency, k),
    ensures
        in_table_range(table, table[i].frequency),
        table[k].frequency == table[i].frequency,
        strictly_sorted_by_frequency(table) ==> k == i,
{
    assert(distance(table[k].frequency, table[i].frequency) <= distance(
        table[i].frequency,
        table[i].frequency,
    ));
    assert(table[0].frequency <= table[i].frequency <= table[table.len() - 1].frequency);
    if strictly_sorted_by_frequency(table) && k != i {
        if k < i {
            assert(table[k].frequency < table[i].frequency);
        } else {
            assert(table[i].frequency < table[k].frequency);
        }
    }
}

/// Looking up a frequency strictly between two neighbours of the table finds
/// the nearer of the two, and the lower one if both are as near.
pub proof fn lemma_lookup_between_neighbours(
    table: Seq<PllFrequency>,
    i: int,
    target: usize,
    k: int,
)
    requires
        sorted_by_frequency(table),
        0 <= i,
        i + 1 < table.len(),
        table[i].frequency < target < table[i + 1].frequency,
        is_lookup_result(table, target, k),
    ensures
        in_table_range(table, target),
        table[k].frequency == if target - table[i].frequency <= table[i + 1].frequency - target {
            table[i].frequency
        } else {
            table[i + 1].frequency
        },
        strictly_sorted_by_frequency(table) ==> k == if target - table[i].frequency <= table[i
            + 1].frequency - target {
            i
        } else {
            i + 1
        },
{
    let below = table[i].frequency;
    let above = table[i + 1].frequency;
    assert(table[0].frequency <= below);
    assert(above <= table[table.len() - 1].frequency);
    assert(distance(table[k].frequency, target) <= distance(table[i].frequency, target));
    assert(distance(table[k].frequency, target) <= distance(table[i + 1].frequency, target));
    if k <= i {
        assert(table[k].frequency <= below);
    } else {
        assert(above <= table[k].frequency);
    }
    if strictly_sorted_by_frequency(table) {
        if k < i {
            assert(table[k].frequency < table[i].frequency);
        }
        if k > i + 1 {
            assert(table[i + 1].frequency < table[k].frequency);
        }
    }
}

/// A register that fits comes back from its four bytes.
pub proof fn lemma_unpack_pack<R: Register>(register: R)
    requires
        register.fits(),
    ensures
        be_bytes(register.reg_value()).len() == 4,
        R::of_reg(
            from_be_bytes(
                be_bytes(register.reg_value())[0],
                be_bytes(register.reg_value())[1],
                be_bytes(register.reg_value())[2],
                be_bytes(register.reg_value())[3],
            ),
        ) == register,
{
    lemma_be_bytes_round_trip(register.reg_value());
    register.lemma_round_trip();
}

} // verus!
