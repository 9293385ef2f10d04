//! The error translator: maps protocol-level failures onto the driver's
//! exception taxonomy, with a canned description for recognized server codes
//! and a severity-class fallback for the rest.

use vstd::prelude::*;

use crate::ascii::{ascii_bytes, push_bytes, spec_ascii};

verus! {

/// The driver exception taxonomy.
#[derive(Clone, Copy, PartialEq, Eq, Structural, Debug)]
pub enum ErrorKind {
    ProgrammingError,
    IntegrityError,
    DataError,
    InternalError,
    OperationalError,
    DatabaseError,
    ConnectionError,
    RuntimeError,
}

/// A protocol-level failure as the wire client reports it: a server error
/// token, a transport failure, or anything else.
pub enum ProtocolFailure {
    Server { code: u32, class: u8, message: Vec<u8> },
    Io { message: Vec<u8> },
    Other { message: Vec<u8> },
}

/// A translated driver error: the exception class to raise, the driver
/// message, and the secondary legacy-format message.
#[derive(Debug)]
pub struct DriverError {
    pub kind: ErrorKind,
    pub driver_msg: Vec<u8>,
    pub ddbc_msg: Vec<u8>,
}

/// Canned description for a recognized server error code; empty otherwise.
pub open spec fn spec_sqlstate_desc(code: u32) -> Seq<u8> {
    if code == 102 || code == 156 || code == 170 || code == 207 || code == 2812 {
        spec_ascii("Syntax error or access violation")
    } else if code == 208 || code == 3701 {
        spec_ascii("Base table or view not found")
    } else if code == 547 || code == 2601 || code == 2627 {
        spec_ascii("Integrity constraint violation")
    } else if code == 245 || code == 220 || code == 8115 || code == 8114 {
        spec_ascii("Data exception")
    } else if code == 8152 || code == 2628 {
        spec_ascii("String or binary data would be truncated")
    } else {
        Seq::empty()
    }
}

/// Exception class for a server error: first the fixed code table, then the
/// severity class — 20 and above internal, 17 and above operational, the
/// rest a plain database error.
pub open spec fn spec_error_kind(code: u32, class: u8) -> ErrorKind {
    if code == 102 || code == 156 || code == 170 || code == 207 || code == 208 || code == 2812
        || code == 3701 {
        ErrorKind::ProgrammingError
    } else if code == 547 || code == 2601 || code == 2627 {
        ErrorKind::IntegrityError
    } else if code == 245 || code == 8152 || code == 220 || code == 8115 || code == 8114 || code
        == 2628 {
        ErrorKind::DataError
    } else if class >= 20 {
        ErrorKind::InternalError
    } else if class >= 17 {
        ErrorKind::OperationalError
    } else {
        ErrorKind::DatabaseError
    }
}

/// Canned description for a recognized server error code.
pub fn sqlstate_desc(code: u32) -> (r: Vec<u8>)
    ensures
        r@ == spec_sqlstate_desc(code),
{
    if code == 102 || code == 156 || code == 170 || code == 207 || code == 2812 {
        proof {
            reveal_strlit("Syntax error or access violation");
        }
        ascii_bytes("Syntax error or access violation")
    } else if code == 208 || code == 3701 {
        proof {
            reveal_strlit("Base table or view not found");
        }
        ascii_bytes("Base table or view not found")
    } else if code == 547 || code == 2601 || code == 2627 {
        proof {
            reveal_strlit("Integrity constraint violation");
        }
        ascii_bytes("Integrity constraint violation")
    } else if code == 245 || code == 220 || code == 8115 || code == 8114 {
        proof {
            reveal_strlit("Data exception");
        }
        ascii_bytes("Data exception")
    } else if code == 8152 || code == 2628 {
        proof {
            reveal_strlit("String or binary data would be truncated");
        }
        ascii_bytes("String or binary data would be truncated")
    } else {
        Vec::new()
    }
}

/// Exception class for a server error code and severity class.
pub fn exc_class_name(code: u32, class: u8) -> (r: ErrorKind)
    ensures
        r == spec_error_kind(code, class),
{
    if code == 102 || code == 156 || code == 170 || code == 207 || code == 208 || code == 2812
        || code == 3701 {
        ErrorKind::ProgrammingError
    } else if code == 547 || code == 2601 || code == 2627 {
        ErrorKind::IntegrityError
    } else if code == 245 || code == 8152 || code == 220 || code == 8115 || code == 8114 || code
        == 2628 {
        ErrorKind::DataError
    } else if class >= 20 {
        ErrorKind::InternalError
    } else if class >= 17 {
        ErrorKind::OperationalError
    } else {
        ErrorKind::DatabaseError
    }
}

/// The branding prefix of the legacy-format message.
pub open spec fn spec_ddbc_prefix() -> Seq<u8> {
    spec_ascii("[CopyCat][whiskers_native][SQL Server]")
}

/// The driver message of a server failure: the canned description where the
/// code is recognized, else the raw server text.
pub open spec fn spec_server_driver_msg(code: u32, message: Seq<u8>) -> Seq<u8> {
    if spec_sqlstate_desc(code).len() == 0 {
        message
    } else {
        spec_sqlstate_desc(code)
    }
}

impl ErrorKind {
    /// The exception class name, for the host-side raise.
    pub fn name(&self) -> (r: Vec<u8>)
        ensures
            r@ == spec_kind_name(*self),
    {
        proof {
            reveal_strlit("ProgrammingError");
            reveal_strlit("IntegrityError");
            reveal_strlit("DataError");
            reveal_strlit("InternalError");
            reveal_strlit("OperationalError");
            reveal_strlit("DatabaseError");
            reveal_strlit("ConnectionError");
            reveal_strlit("RuntimeError");
        }
        match self {
            ErrorKind::ProgrammingError => ascii_bytes("ProgrammingError"),
            ErrorKind::IntegrityError => ascii_bytes("IntegrityError"),
            ErrorKind::DataError => ascii_bytes("DataError"),
            ErrorKind::InternalError => ascii_bytes("InternalError"),
            ErrorKind::OperationalError => ascii_bytes("OperationalError"),
            ErrorKind::DatabaseError => ascii_bytes("DatabaseError"),
            ErrorKind::ConnectionError => ascii_bytes("ConnectionError"),
            ErrorKind::RuntimeError => ascii_bytes("RuntimeError"),
        }
    }
}

/// The exception class name text of each kind.
pub open spec fn spec_kind_name(k: ErrorKind) -> Seq<u8> {
    match k {
        ErrorKind::ProgrammingError => spec_ascii("ProgrammingError"),
        ErrorKind::IntegrityError => spec_ascii("IntegrityError"),
        ErrorKind::DataError => spec_ascii("DataError"),
        ErrorKind::InternalError => spec_ascii("InternalError"),
        ErrorKind::OperationalError => spec_ascii("OperationalError"),
        ErrorKind::DatabaseError => spec_ascii("DatabaseError"),
        ErrorKind::ConnectionError => spec_ascii("ConnectionError"),
        ErrorKind::RuntimeError => spec_ascii("RuntimeError"),
    }
}

/// Translates a protocol failure into the driver error to raise: a server
/// error goes through the code table and severity fallback and carries the
/// branded legacy message; a transport failure becomes a connection error;
/// anything else a generic runtime error.
pub fn translate_failure(f: ProtocolFailure) -> (r: DriverError)
    ensures
        match f {
            ProtocolFailure::Server { code, class, message } => {
                &&& r.kind == spec_error_kind(code, class)
                &&& r.driver_msg@ == spec_server_driver_msg(code, message@)
                &&& r.ddbc_msg@ == spec_ddbc_prefix() + message@
            },
            ProtocolFailure::Io { message } => {
                &&& r.kind == ErrorKind::ConnectionError
                &&& r.driver_msg@ == message@
                &&& r.ddbc_msg@.len() == 0
            },
            ProtocolFailure::Other { message } => {
                &&& r.kind == ErrorKind::RuntimeError
                &&& r.driver_msg@ == message@
                &&& r.ddbc_msg@.len() == 0
            },
        },
{
    match f {
        ProtocolFailure::Server { code, class, message } => {
            let kind = exc_class_name(code, class);
            let desc = sqlstate_desc(code);
            let driver_msg = if desc.len() == 0 {
                let mut m: Vec<u8> = Vec::new();
                push_bytes(&mut m, message.as_slice());
                proof {
                    assert(m@ =~= message@);
                }
                m
            } else {
                desc
            };
            proof {
                reveal_strlit("[CopyCat][whiskers_native][SQL Server]");
            }
            let mut ddbc = ascii_bytes("[CopyCat][whiskers_native][SQL Server]");
            push_bytes(&mut ddbc, message.as_slice());
            DriverError { kind, driver_msg, ddbc_msg: ddbc }
        },
        ProtocolFailure::Io { message } => {
            DriverError {
                kind: ErrorKind::ConnectionError,
                driver_msg: message,
                ddbc_msg: Vec::new(),
            }
        },
        ProtocolFailure::Other { message } => {
            DriverError {
                kind: ErrorKind::RuntimeError,
                driver_msg: message,
                ddbc_msg: Vec::new(),
            }
        },
    }
}

} // verus!
