//! Errors that the library reports.

use vstd::prelude::*;
use vstd::string::*;
use crate::text::{decimal, push_decimal};

verus! {

/// Errors of the hash chain manager.
#[derive(Clone, Copy, Debug, PartialEq, Eq, Structural)]
pub enum HashChainManager {
    /// The parameters of the hash chain were never set
    ParamsNotSet,
}

impl HashChainManager {
    /// How the error is written.
    pub open spec fn text(&self) -> Seq<char> {
        "HashChain parameters not set"@
    }
}

/// What went wrong, with the offending value or a message.
#[derive(Debug)]
pub enum ErrorKind {
    /// General error
    General(String),
    /// Input or output failed
    Io(String),
    /// Something has another version than expected: what, found, expected
    UnexpectedVersion(String, String, String),
    /// Error of the hash board with this index
    Hashboard(usize, String),
    /// Enumeration of the hash chips failed
    ChipEnumeration(String),
    /// Bad baud rate
    BaudRate(String),
    /// GPIO error
    Gpio(String),
    /// I2C error
    I2c(String),
    /// I2C error of the operating system
    LinuxI2c(String),
    /// Power controller error
    Power(String),
    /// Error of the hash chain manager
    HashChainManager(HashChainManager),
    /// Error while halting
    Halt(String),
    /// Sensor error
    Sensors(String),
    /// Error of the chip driver
    Antminer(String),
    /// No PLL setting for the frequency asked for
    PLL(String),
    /// Bad description of a mining client
    Client(String),
}

/// An [`ErrorKind`] with its strings as sequences of characters.
pub enum ErrorKindView {
    General(Seq<char>),
    Io(Seq<char>),
    UnexpectedVersion(Seq<char>, Seq<char>, Seq<char>),
    Hashboard(usize, Seq<char>),
    ChipEnumeration(Seq<char>),
    BaudRate(Seq<char>),
    Gpio(Seq<char>),
    I2c(Seq<char>),
    LinuxI2c(Seq<char>),
    Power(Seq<char>),
    HashChainManager(HashChainManager),
    Halt(Seq<char>),
    Sensors(Seq<char>),
    Antminer(Seq<char>),
    PLL(Seq<char>),
    Client(Seq<char>),
}

impl View for ErrorKind {
    type V = ErrorKindView;

    open spec fn view(&self) -> ErrorKindView {
        match *self {
            ErrorKind::General(m) => ErrorKindView::General(m@),
            ErrorKind::Io(m) => ErrorKindView::Io(m@),
            ErrorKind::UnexpectedVersion(a, b, c) => ErrorKindView::UnexpectedVersion(a@, b@, c@),
            ErrorKind::Hashboard(i, m) => ErrorKindView::Hashboard(i, m@),
            ErrorKind::ChipEnumeration(m) => ErrorKindView::ChipEnumeration(m@),
            ErrorKind::BaudRate(m) => ErrorKindView::BaudRate(m@),
            ErrorKind::Gpio(m) => ErrorKindView::Gpio(m@),
            ErrorKind::I2c(m) => ErrorKindView::I2c(m@),
            ErrorKind::LinuxI2c(m) => ErrorKindView::LinuxI2c(m@),
            ErrorKind::Power(m) => ErrorKindView::Power(m@),
            ErrorKind::HashChainManager(e) => ErrorKindView::HashChainManager(e),
            ErrorKind::Halt(m) => ErrorKindView::Halt(m@),
            ErrorKind::Sensors(m) => ErrorKindView::Sensors(m@),
            ErrorKind::Antminer(m) => ErrorKindView::Antminer(m@),
            ErrorKind::PLL(m) => ErrorKindView::PLL(m@),
            ErrorKind::Client(m) => ErrorKindView::Client(m@),
        }
    }
}

impl ErrorKindView {
    /// How the error is written: a prefix that names the kind, then the
    /// message.
    pub open spec fn text(self) -> Seq<char> {
        match self {
            ErrorKindView::General(m) => m,
            ErrorKindView::Io(m) => "IO: "@ + m,
            ErrorKindView::UnexpectedVersion(what, found, expected) => "Unexpected "@ + what
                + " version: "@ + found + ", expected: "@ + expected,
            ErrorKindView::Hashboard(i, m) => "Hashboard "@ + decimal(i as nat) + ": "@ + m,
            ErrorKindView::ChipEnumeration(m) => "Enumeration: "@ + m,
            ErrorKindView::BaudRate(m) => "Baud rate: "@ + m,
            ErrorKindView::Gpio(m) => "GPIO: "@ + m,
            ErrorKindView::I2c(m) => "I2C: "@ + m,
            ErrorKindView::LinuxI2c(m) => "Linux I2C: "@ + m,
            ErrorKindView::Power(m) => "Power: "@ + m,
            ErrorKindView::HashChainManager(e) => "HashChain Manager: "@ + e.text(),
            ErrorKindView::Halt(m) => "Halt: "@ + m,
            ErrorKindView::Sensors(m) => "Sensors: "@ + m,
            ErrorKindView::Antminer(m) => "Antminer error: "@ + m,
            ErrorKindView::PLL(m) => "PLL: "@ + m,
            ErrorKindView::Client(m) => "Client: "@ + m,
        }
    }
}

impl Clone for ErrorKind {
    fn clone(&self) -> (copy: Self)
        ensures
            copy@ == self@,
    {
        match self {
            ErrorKind::General(m) => ErrorKind::General(m.clone()),
            ErrorKind::Io(m) => ErrorKind::Io(m.clone()),
            ErrorKind::UnexpectedVersion(a, b, c) => ErrorKind::UnexpectedVersion(
                a.clone(),
                b.clone(),
                c.clone(),
            ),
            ErrorKind::Hashboard(i, m) => ErrorKind::Hashboard(*i, m.clone()),
            ErrorKind::ChipEnumeration(m) => ErrorKind::ChipEnumeration(m.clone()),
            ErrorKind::BaudRate(m) => ErrorKind::BaudRate(m.clone()),
            ErrorKind::Gpio(m) => ErrorKind::Gpio(m.clone()),
            ErrorKind::I2c(m) => ErrorKind::I2c(m.clone()),
            ErrorKind::LinuxI2c(m) => ErrorKind::LinuxI2c(m.clone()),
            ErrorKind::Power(m) => ErrorKind::Power(m.clone()),
            ErrorKind::HashChainManager(e) => ErrorKind::HashChainManager(*e),
            ErrorKind::Halt(m) => ErrorKind::Halt(m.clone()),
            ErrorKind::Sensors(m) => ErrorKind::Sensors(m.clone()),
            ErrorKind::Antminer(m) => ErrorKind::Antminer(m.clone()),
            ErrorKind::PLL(m) => ErrorKind::PLL(m.clone()),
            ErrorKind::Client(m) => ErrorKind::Client(m.clone()),
        }
    }
}

/// Starts a message with `prefix`.
fn prefixed(prefix: &str, message: &String) -> (text: String)
    ensures
        text@ == prefix@ + message@,
{
    let mut text = String::from_str(prefix);
    text.append(message.as_str());
    text
}

impl ErrorKind {
    /// The error as it is written for the user.
    pub fn to_string(&self) -> (text: String)
        ensures
            text@ == self@.text(),
    {
        match self {
            ErrorKind::General(m) => m.clone(),
            ErrorKind::Io(m) => prefixed("IO: ", m),
            ErrorKind::UnexpectedVersion(what, found, expected) => {
                let mut text = String::from_str("Unexpected ");
                text.append(what.as_str());
                text.append(" version: ");
                text.append(found.as_str());
                text.append(", expected: ");
                text.append(expected.as_str());
                text
            },
            ErrorKind::Hashboard(i, m) => {
                let mut text = String::from_str("Hashboard ");
                push_decimal(&mut text, *i as u64);
                text.append(": ");
                text.append(m.as_str());
                text
            },
            ErrorKind::ChipEnumeration(m) => prefixed("Enumeration: ", m),
            ErrorKind::BaudRate(m) => prefixed("Baud rate: ", m),
            ErrorKind::Gpio(m) => prefixed("GPIO: ", m),
            ErrorKind::I2c(m) => prefixed("I2C: ", m),
            ErrorKind::LinuxI2c(m) => prefixed("Linux I2C: ", m),
            ErrorKind::Power(m) => prefixed("Power: ", m),
            ErrorKind::HashChainManager(_) => {
                let mut text = String::from_str("HashChain Manager: ");
                text.append("HashChain parameters not set");
                text
            },
            ErrorKind::Halt(m) => prefixed("Halt: ", m),
            ErrorKind::Sensors(m) => prefixed("Sensors: ", m),
            ErrorKind::Antminer(m) => prefixed("Antminer error: ", m),
            ErrorKind::PLL(m) => prefixed("PLL: ", m),
            ErrorKind::Client(m) => prefixed("Client: ", m),
        }
    }
}

/// An error of the library. It says what kind of thing went wrong.
#[derive(Debug)]
pub struct Error {
    kind: ErrorKind,
}

impl Error {
    /// The kind of this error, as contracts speak of it.
    pub closed spec fn spec_kind(&self) -> ErrorKindView {
        self.kind@
    }

    /// The error of kind `kind`.
    pub fn new(kind: ErrorKind) -> (error: Self)
        ensures
            error.spec_kind() == kind@,
    {
        Error { kind }
    }

    /// A general error with `msg` as its message.
    pub fn from_message(msg: String) -> (error: Self)
        ensures
            error.spec_kind() == ErrorKindView::General(msg@),
    {
        Error { kind: ErrorKind::General(msg) }
    }

    /// The kind of this error.
    pub fn kind(&self) -> (kind: ErrorKind)
        ensures
            kind@ == self.spec_kind(),
    {
        self.kind.clone()
    }

    /// The error as it is written for the user.
    pub fn to_string(&self) -> (text: String)
        ensures
            text@ == self.spec_kind().text(),
    {
        self.kind.to_string()
    }
}

} // verus!
