//! Report framing and device selection for the HID transport.
//!
//! The I/O itself (opening the HID device, reading and writing reports) lives
//! with the caller; this module decides which interface to open, how a payload
//! is framed into a report, and how an inbound report is turned back into a
//! payload.
use vstd::prelude::*;

use crate::error::Error;
use crate::protocol::consts::{
    cmd, PAYLOAD_LEN, PRODUCT_IDS, REPORT_ID, REPORT_LEN, USAGE, USAGE_PAGE, VENDOR_ID,
};
use crate::protocol::packet::Payload;
use crate::protocol::{is_identity_reply, Identity};

verus! {

/// `product_id` is one of the known DrunkDeer product IDs.
pub open spec fn is_known_product(product_id: u16) -> bool {
    exists|i: int| 0 <= i < PRODUCT_IDS@.len() && PRODUCT_IDS@[i] == product_id
}

/// An enumerated HID interface is a DrunkDeer keyboard's configuration interface.
pub open spec fn spec_is_config_interface(
    vendor_id: u16,
    product_id: u16,
    usage_page: u16,
    usage: u16,
) -> bool {
    &&& vendor_id == VENDOR_ID
    &&& is_known_product(product_id)
    &&& usage_page == USAGE_PAGE
    &&& usage == USAGE
}

/// Whether `product_id` is a known DrunkDeer product.
pub fn is_supported_product(product_id: u16) -> (r: bool)
    ensures
        r == is_known_product(product_id),
{
    let mut i: usize = 0;
    while i < PRODUCT_IDS.len()
        invariant
            i <= PRODUCT_IDS@.len(),
            forall|j: int| 0 <= j < i ==> PRODUCT_IDS@[j] != product_id,
        decreases PRODUCT_IDS@.len() - i,
    {
        if PRODUCT_IDS[i] == product_id {
            return true;
        }
        i = i + 1;
    }
    false
}

/// Whether an enumerated HID interface (by vendor, product, usage page and
/// usage) is the keyboard's vendor configuration interface.
pub fn is_config_interface(vendor_id: u16, product_id: u16, usage_page: u16, usage: u16) -> (r:
    bool)
    ensures
        r == spec_is_config_interface(vendor_id, product_id, usage_page, usage),
{
    vendor_id == VENDOR_ID && is_supported_product(product_id) && usage_page == USAGE_PAGE && usage
        == USAGE
}

/// The full outbound report for a payload: the report ID, then the payload.
pub open spec fn spec_frame_report(payload: Seq<u8>) -> Seq<u8> {
    seq![REPORT_ID] + payload
}

/// Frame a payload into a full-length report by prepending the report ID.
pub fn frame_report(payload: &Payload) -> (report: [u8; REPORT_LEN])
    ensures
        report@ == spec_frame_report(payload@),
{
    let mut report = [0u8; REPORT_LEN];
    report[0] = REPORT_ID;
    let mut i: usize = 0;
    while i < PAYLOAD_LEN
        invariant
            i <= PAYLOAD_LEN,
            report@[0] == REPORT_ID,
            forall|j: int| 0 <= j < i ==> report@[j + 1] == payload@[j],
        decreases PAYLOAD_LEN - i,
    {
        report[i + 1] = payload[i];
        i = i + 1;
    }
    assert(report@ =~= spec_frame_report(payload@));
    report
}

/// The payload of an inbound report of `n` bytes held in `buf`: nothing when no
/// bytes arrived; otherwise the bytes after the report ID when the report starts
/// with it, and all `n` bytes when it does not.
pub open spec fn spec_report_payload(buf: Seq<u8>, n: int) -> Option<Seq<u8>> {
    if n == 0 {
        None
    } else if buf[0] == REPORT_ID {
        Some(buf.subrange(1, n))
    } else {
        Some(buf.subrange(0, n))
    }
}

/// Copy `buf[from..to]` into a new vector.
fn copy_range(buf: &[u8], from: usize, to: usize) -> (v: Vec<u8>)
    requires
        from <= to <= buf@.len(),
    ensures
        v@ == buf@.subrange(from as int, to as int),
{
    let mut v: Vec<u8> = Vec::new();
    let mut i = from;
    while i < to
        invariant
            from <= i <= to <= buf@.len(),
            v@ == buf@.subrange(from as int, i as int),
        decreases to - i,
    {
        v.push(buf[i]);
        i = i + 1;
        assert(v@ =~= buf@.subrange(from as int, i as int));
    }
    v
}

/// Normalise an inbound report: `n` bytes were read into `buf`. Some platforms
/// keep the leading report ID and some strip it; a leading [`REPORT_ID`] is
/// dropped. Returns `None` when nothing was read (a timeout).
pub fn report_payload(buf: &[u8; REPORT_LEN], n: usize) -> (r: Option<Vec<u8>>)
    requires
        n <= REPORT_LEN,
    ensures
        match r {
            Some(v) => spec_report_payload(buf@, n as int) == Some(v@),
            None => spec_report_payload(buf@, n as int) is None,
        },
{
    if n == 0 {
        return None;
    }
    let s = buf.as_slice();
    if buf[0] == REPORT_ID {
        Some(copy_range(s, 1, n))
    } else {
        Some(copy_range(s, 0, n))
    }
}

/// The payload of an input report delivered by a browser HID event, with its
/// report ID given apart from its bytes: the bytes as they are when the event's
/// report ID is [`REPORT_ID`]; otherwise a leading [`REPORT_ID`] byte is dropped.
pub open spec fn spec_input_report_payload(report_id: u8, bytes: Seq<u8>) -> Seq<u8> {
    if report_id == REPORT_ID {
        bytes
    } else if bytes.len() > 0 && bytes[0] == REPORT_ID {
        bytes.drop_first()
    } else {
        bytes
    }
}

/// Normalise an input report delivered with a separate report ID.
pub fn input_report_payload(report_id: u8, bytes: Vec<u8>) -> (r: Vec<u8>)
    ensures
        r@ == spec_input_report_payload(report_id, bytes@),
{
    if report_id == REPORT_ID {
        bytes
    } else if bytes.len() > 0 && bytes[0] == REPORT_ID {
        let v = copy_range(bytes.as_slice(), 1, bytes.len());
        assert(v@ =~= bytes@.drop_first());
        v
    } else {
        bytes
    }
}

/// What one inbound report means while waiting for the identity handshake:
/// `None` for an unrelated report (keep waiting); for an identity report, the
/// parsed identity, or [`Error::NoResponse`] when it is not a genuine reply.
pub fn identity_reply(data: &[u8]) -> (r: Option<Result<Identity, Error>>)
    ensures
        (r is None) <==> (data@.len() == 0 || data@[0] != cmd::IDENTITY),
        r matches Some(Ok(id)) ==> is_identity_reply(data@) && id.decodes(data@),
        r matches Some(Err(e)) ==> !is_identity_reply(data@) && e == Error::NoResponse,
{
    if data.len() == 0 || data[0] != cmd::IDENTITY {
        return None;
    }
    match Identity::parse(data) {
        Some(id) => Some(Ok(id)),
        None => Some(Err(Error::NoResponse)),
    }
}

/// A report written for a payload reads back as that same payload.
pub proof fn lemma_frame_read_back(payload: Payload)
    ensures
        spec_report_payload(spec_frame_report(payload@), REPORT_LEN as int) == Some(payload@),
{
    let report = spec_frame_report(payload@);
    assert(report.subrange(1, REPORT_LEN as int) =~= payload@);
}

} // verus!
