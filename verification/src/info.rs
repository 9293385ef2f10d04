//! Connection metadata: the fixed table behind the information queries —
//! constants answered locally, and the scalar probes the transport runs.

use vstd::prelude::*;

use crate::ascii::{ascii_bytes, spec_ascii};

verus! {

/// How one information request is answered: with a number, with fixed text,
/// or by running a one-shot scalar query whose first string cell is the
/// answer (empty text when the probe yields nothing).
pub enum InfoResponse {
    Number(u32),
    Text(Vec<u8>),
    Probe(Vec<u8>),
}

/// Ghost image of an information answer.
pub enum InfoResponseView {
    Number(u32),
    Text(Seq<u8>),
    Probe(Seq<u8>),
}

impl View for InfoResponse {
    type V = InfoResponseView;

    open spec fn view(&self) -> InfoResponseView {
        match self {
            InfoResponse::Number(n) => InfoResponseView::Number(*n),
            InfoResponse::Text(t) => InfoResponseView::Text(t@),
            InfoResponse::Probe(q) => InfoResponseView::Probe(q@),
        }
    }
}

/// The fixed answer table: driver name and version, product name, fixed
/// limits and capabilities; server name, database name, product version and
/// current user go to the wire as scalar probes; anything unknown answers
/// empty text.
pub open spec fn spec_get_info(info_type: u16) -> InfoResponseView {
    if info_type == 0 || info_type == 1 {
        InfoResponseView::Number(0)
    } else if info_type == 2 {
        InfoResponseView::Text(Seq::empty())
    } else if info_type == 6 {
        InfoResponseView::Text(spec_ascii("whiskers_native"))
    } else if info_type == 7 {
        InfoResponseView::Text(spec_ascii("01.00.0000"))
    } else if info_type == 13 {
        InfoResponseView::Probe(spec_ascii("SELECT @@SERVERNAME"))
    } else if info_type == 16 {
        InfoResponseView::Probe(spec_ascii("SELECT DB_NAME()"))
    } else if info_type == 17 {
        InfoResponseView::Text(spec_ascii("Microsoft SQL Server"))
    } else if info_type == 18 {
        InfoResponseView::Probe(
            spec_ascii("SELECT CAST(SERVERPROPERTY('ProductVersion') AS VARCHAR(128))"),
        )
    } else if info_type == 19 || info_type == 20 || info_type == 21 || info_type == 27 {
        InfoResponseView::Text(spec_ascii("Y"))
    } else if info_type == 25 {
        InfoResponseView::Text(spec_ascii("N"))
    } else if info_type == 30 || info_type == 32 || info_type == 34 || info_type == 35 || info_type
        == 107 || info_type == 10005 {
        InfoResponseView::Number(128)
    } else if info_type == 46 {
        InfoResponseView::Number(2)
    } else if info_type == 47 {
        InfoResponseView::Probe(spec_ascii("SELECT CURRENT_USER"))
    } else if info_type == 48 {
        InfoResponseView::Number(3)
    } else if info_type == 49 || info_type == 50 {
        InfoResponseView::Number(0x00FFFFFF)
    } else if info_type == 51 {
        InfoResponseView::Number(0x001FFFFF)
    } else if info_type == 72 {
        InfoResponseView::Number(0x0F)
    } else if info_type == 97 || info_type == 99 || info_type == 105 || info_type == 108
        || info_type == 112 {
        InfoResponseView::Number(0)
    } else if info_type == 98 {
        InfoResponseView::Number(32)
    } else if info_type == 100 {
        InfoResponseView::Number(4096)
    } else if info_type == 101 {
        InfoResponseView::Number(1024)
    } else if info_type == 104 {
        InfoResponseView::Number(8060)
    } else if info_type == 106 {
        InfoResponseView::Number(256)
    } else {
        InfoResponseView::Text(Seq::empty())
    }
}

/// Answers one information request from the fixed table.
pub fn get_info(info_type: u16) -> (r: InfoResponse)
    ensures
        r@ == spec_get_info(info_type),
{
    proof {
        reveal_strlit("whiskers_native");
        reveal_strlit("01.00.0000");
        reveal_strlit("SELECT @@SERVERNAME");
        reveal_strlit("SELECT DB_NAME()");
        reveal_strlit("Microsoft SQL Server");
        reveal_strlit("SELECT CAST(SERVERPROPERTY('ProductVersion') AS VARCHAR(128))");
        reveal_strlit("Y");
        reveal_strlit("N");
        reveal_strlit("SELECT CURRENT_USER");
    }
    if info_type == 0 || info_type == 1 {
        InfoResponse::Number(0)
    } else if info_type == 2 {
        InfoResponse::Text(Vec::new())
    } else if info_type == 6 {
        InfoResponse::Text(ascii_bytes("whiskers_native"))
    } else if info_type == 7 {
        InfoResponse::Text(ascii_bytes("01.00.0000"))
    } else if info_type == 13 {
        InfoResponse::Probe(ascii_bytes("SELECT @@SERVERNAME"))
    } else if info_type == 16 {
        InfoResponse::Probe(ascii_bytes("SELECT DB_NAME()"))
    } else if info_type == 17 {
        InfoResponse::Text(ascii_bytes("Microsoft SQL Server"))
    } else if info_type == 18 {
        InfoResponse::Probe(
            ascii_bytes("SELECT CAST(SERVERPROPERTY('ProductVersion') AS VARCHAR(128))"),
        )
    } else if info_type == 19 || info_type == 20 || info_type == 21 || info_type == 27 {
        InfoResponse::Text(ascii_bytes("Y"))
    } else if info_type == 25 {
        InfoResponse::Text(ascii_bytes("N"))
    } else if info_type == 30 || info_type == 32 || info_type == 34 || info_type == 35 || info_type
        == 107 || info_type == 10005 {
        InfoResponse::Number(128)
    } else if info_type == 46 {
        InfoResponse::Number(2)
    } else if info_type == 47 {
        InfoResponse::Probe(ascii_bytes("SELECT CURRENT_USER"))
    } else if info_type == 48 {
        InfoResponse::Number(3)
    } else if info_type == 49 || info_type == 50 {
        InfoResponse::Number(0x00FFFFFF)
    } else if info_type == 51 {
        InfoResponse::Number(0x001FFFFF)
    } else if info_type == 72 {
        InfoResponse::Number(0x0F)
    } else if info_type == 97 || info_type == 99 || info_type == 105 || info_type == 108
        || info_type == 112 {
        InfoResponse::Number(0)
    } else if info_type == 98 {
        InfoResponse::Number(32)
    } else if info_type == 100 {
        InfoResponse::Number(4096)
    } else if info_type == 101 {
        InfoResponse::Number(1024)
    } else if info_type == 104 {
        InfoResponse::Number(8060)
    } else if info_type == 106 {
        InfoResponse::Number(256)
    } else {
        InfoResponse::Text(Vec::new())
    }
}

} // verus!
