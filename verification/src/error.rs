//! The library's error type.

use vstd::prelude::*;
use crate::text::push_str;

verus! {

/// What went wrong, with a human-readable detail.
#[derive(Debug)]
pub enum MtpoeError {
    Spi(String),
    SpiCrc(String),
    SpiCmd(String),
    BoardDetection(String),
    Uci(String),
    InvalidPort(String),
    InvalidValue(String),
}

impl MtpoeError {
    /// The detail carried by the error.
    pub open spec fn detail(&self) -> Seq<char> {
        match self {
            MtpoeError::Spi(m) => m@,
            MtpoeError::SpiCrc(m) => m@,
            MtpoeError::SpiCmd(m) => m@,
            MtpoeError::BoardDetection(m) => m@,
            MtpoeError::Uci(m) => m@,
            MtpoeError::InvalidPort(m) => m@,
            MtpoeError::InvalidValue(m) => m@,
        }
    }

    /// The fixed text that precedes the detail when the error is shown.
    pub open spec fn heading(&self) -> Seq<char> {
        match self {
            MtpoeError::Spi(_) => "SPI error: "@,
            MtpoeError::SpiCrc(_) => "SPI CRC error: "@,
            MtpoeError::SpiCmd(_) => "SPI command mismatch: "@,
            MtpoeError::BoardDetection(_) => "board detection failed: "@,
            MtpoeError::Uci(_) => "UCI error: "@,
            MtpoeError::InvalidPort(_) => "invalid port: "@,
            MtpoeError::InvalidValue(_) => "invalid value: "@,
        }
    }

    /// Errors that repeating the command cannot cure: a bad board, configuration,
    /// port or value. Transfer errors on the SPI bus are transient.
    pub open spec fn fatal(&self) -> bool {
        match self {
            MtpoeError::Spi(_) | MtpoeError::SpiCrc(_) | MtpoeError::SpiCmd(_) => false,
            _ => true,
        }
    }

    /// Whether a periodic run should stop at once on this error.
    pub fn is_fatal(&self) -> (b: bool)
        ensures
            b == self.fatal(),
    {
        match self {
            MtpoeError::Spi(_) | MtpoeError::SpiCrc(_) | MtpoeError::SpiCmd(_) => false,
            _ => true,
        }
    }

    /// The error as shown to the user: its heading, then its detail.
    pub fn describe(&self) -> (s: String)
        ensures
            s@ == self.heading() + self.detail(),
    {
        let (head, m): (&str, &String) = match self {
            MtpoeError::Spi(m) => ("SPI error: ", m),
            MtpoeError::SpiCrc(m) => ("SPI CRC error: ", m),
            MtpoeError::SpiCmd(m) => ("SPI command mismatch: ", m),
            MtpoeError::BoardDetection(m) => ("board detection failed: ", m),
            MtpoeError::Uci(m) => ("UCI error: ", m),
            MtpoeError::InvalidPort(m) => ("invalid port: ", m),
            MtpoeError::InvalidValue(m) => ("invalid value: ", m),
        };
        let mut s: String = String::new();
        push_str(&mut s, head);
        push_str(&mut s, m.as_str());
        s
    }
}

} // verus!
