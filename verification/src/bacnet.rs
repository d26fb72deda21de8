//! BACnet/IP device responder: BVLC framing, Who-Is matching and I-Am,
//! and the ReadProperty requests it answers. NPDU, APDU and service
//! encodings come from the `bacnet-rs` crate.

use bacnet_rs::app::Apdu;
use bacnet_rs::network::Npdu;
use bacnet_rs::object::{ObjectIdentifier, ObjectType, Segmentation};
use bacnet_rs::service::{
    ConfirmedServiceChoice, IAmRequest, ReadPropertyRequest, UnconfirmedServiceChoice, WhoIsRequest,
};
use vstd::prelude::*;

verus! {

/// Default BACnet/IP port (ASHRAE 135 Annex J).
pub const DEFAULT_PORT: u16 = 47808;

/// Device instance number reported by this device.
pub const DEFAULT_DEVICE_INSTANCE: u32 = 11001;

/// BVLC type byte of BACnet/IP.
pub const BVLC_TYPE_BIP: u8 = 0x81;

/// BVLC function Original-Unicast-NPDU.
pub const ORIGINAL_UNICAST_NPDU: u8 = 0x0A;

/// BVLC function Original-Broadcast-NPDU.
pub const ORIGINAL_BROADCAST_NPDU: u8 = 0x0B;

/// Object type code of a Device object.
pub const OBJECT_DEVICE: u32 = 8;

/// Object type code of an Analog Input object.
pub const OBJECT_ANALOG_INPUT: u32 = 0;

/// Property identifier code of Present_Value.
pub const PROP_PRESENT_VALUE: u32 = 85;

/// Largest APDU this device accepts.
pub const MAX_APDU_LENGTH_ACCEPTED: u32 = 1476;

/// Segmentation code "no segmentation".
pub const SEGMENTATION_NONE: u32 = 3;

/// Vendor identifier this device reports.
pub const VENDOR_IDENTIFIER: u16 = 260;

/// A request APDU, as far as this device reads it.
pub enum ApduRequest {
    /// Unconfirmed Who-Is with its service data.
    WhoIs(Vec<u8>),
    /// Confirmed ReadProperty with its invoke id and service data.
    ReadProperty(u8, Vec<u8>),
    /// Anything else.
    Other,
}

/// A request APDU as plain values.
pub enum ApduRequestView {
    /// Unconfirmed Who-Is with its service data.
    WhoIs(Seq<u8>),
    /// Confirmed ReadProperty with its invoke id and service data.
    ReadProperty(u8, Seq<u8>),
    /// Anything else.
    Other,
}

impl ApduRequest {
    /// This request as plain values.
    pub open spec fn view(&self) -> ApduRequestView {
        match self {
            ApduRequest::WhoIs(d) => ApduRequestView::WhoIs(d@),
            ApduRequest::ReadProperty(id, d) => ApduRequestView::ReadProperty(*id, d@),
            ApduRequest::Other => ApduRequestView::Other,
        }
    }
}

/// The device-instance range of a Who-Is.
#[derive(Clone, Copy, Debug, PartialEq, Eq, Structural)]
pub struct WhoIsRange {
    /// Low limit, if any.
    pub low: Option<u32>,
    /// High limit, if any.
    pub high: Option<u32>,
}

/// The target of a ReadProperty request.
#[derive(Clone, Copy, Debug, PartialEq, Eq, Structural)]
pub struct ReadPropertyTarget {
    /// Object type code.
    pub object_type: u32,
    /// Object instance.
    pub instance: u32,
    /// Property identifier code.
    pub property: u32,
    /// Array index, if any.
    pub array_index: Option<u32>,
}

/// What the device does with a frame.
#[derive(Debug, PartialEq, Eq)]
pub enum FrameAction {
    /// Nothing to send.
    Ignore,
    /// Send this frame back.
    Reply(Vec<u8>),
    /// Answer a ReadProperty of Present_Value of this Analog Input, with
    /// this invoke id, if the object exists.
    ReadPresentValue(u8, u32),
}

/// What the device does with a frame, as plain values.
pub enum FrameActionView {
    /// Nothing to send.
    Ignore,
    /// Send this frame back.
    Reply(Seq<u8>),
    /// Answer a ReadProperty of Present_Value (invoke id, instance).
    ReadPresentValue(u8, u32),
}

impl FrameAction {
    /// This action as plain values.
    pub open spec fn view(&self) -> FrameActionView {
        match self {
            FrameAction::Ignore => FrameActionView::Ignore,
            FrameAction::Reply(b) => FrameActionView::Reply(b@),
            FrameAction::ReadPresentValue(id, i) => FrameActionView::ReadPresentValue(*id, *i),
        }
    }
}

/// Why a frame could not be handled.
#[derive(Clone, Copy, Debug, PartialEq, Eq, Structural)]
pub enum BacnetError {
    /// The NPDU did not decode.
    Npdu,
    /// The APDU did not decode.
    Apdu,
    /// The Who-Is service data did not decode.
    WhoIs,
    /// The ReadProperty service data did not decode.
    ReadProperty,
    /// The I-Am could not be encoded.
    IAmEncode,
}

/// Length of the NPDU at the start of a buffer.
pub uninterp spec fn npdu_length_of(data: Seq<u8>) -> Option<usize>;

/// The NPDU of a local message with no network addresses: version 1, then
/// a control byte with only the expecting-reply bit (0x04) as given.
pub open spec fn npdu_bytes(expecting_reply: bool) -> Seq<u8> {
    seq![0x01u8, if expecting_reply { 0x04u8 } else { 0x00u8 }]
}

/// An unconfirmed-request APDU (type 1) for I-Am (service 0) around its
/// service data.
pub open spec fn i_am_apdu_bytes(service_data: Seq<u8>) -> Seq<u8> {
    seq![0x10u8, 0x00u8] + service_data
}

/// The request an APDU decodes to.
pub uninterp spec fn apdu_request_of(data: Seq<u8>) -> Option<ApduRequestView>;

/// The range a Who-Is service data decodes to.
pub uninterp spec fn who_is_of(data: Seq<u8>) -> Option<WhoIsRange>;

/// The target a ReadProperty service data decodes to.
pub uninterp spec fn read_property_of(data: Seq<u8>) -> Option<ReadPropertyTarget>;

/// Service data of an I-Am.
pub uninterp spec fn i_am_bytes(
    object_type: u32,
    instance: u32,
    max_apdu: u32,
    segmentation: u32,
    vendor: u16,
) -> Option<Seq<u8>>;

/// `Npdu::decode`: the length of the NPDU that starts `data`, which the
/// decoder never reads past the end of. Named `npdu_length_of`.
#[verifier::external_body]
fn npdu_length(data: &[u8]) -> (r: Option<usize>)
    ensures
        r == npdu_length_of(data@),
        r matches Some(n) ==> n <= data@.len(),
{
    Npdu::decode(data).ok().map(|(_, n)| n)
}

/// `Npdu::new` with `control.expecting_reply` set as given, then
/// `Npdu::encode`: version 1 and the control byte, no addresses
/// (`npdu_bytes`).
#[verifier::external_body]
fn encode_npdu(expecting_reply: bool) -> (r: Vec<u8>)
    ensures
        r@ == npdu_bytes(expecting_reply),
{
    let mut npdu = Npdu::new();
    npdu.control.expecting_reply = expecting_reply;
    npdu.encode()
}

/// `Apdu::decode`: a Who-Is or ReadProperty request with its service data
/// (and invoke id); any other APDU reads as `Other`. Named
/// `apdu_request_of`.
#[verifier::external_body]
fn decode_apdu(data: &[u8]) -> (r: Option<ApduRequest>)
    ensures
        r matches Some(a) ==> apdu_request_of(data@) == Some(a.view()),
        r is None ==> apdu_request_of(data@) is None,
{
    Some(match Apdu::decode(data).ok()? {
        Apdu::UnconfirmedRequest { service_choice: UnconfirmedServiceChoice::WhoIs, service_data } => ApduRequest::WhoIs(service_data),
        Apdu::ConfirmedRequest { invoke_id, service_choice: ConfirmedServiceChoice::ReadProperty, service_data, .. } => ApduRequest::ReadProperty(invoke_id, service_data),
        _ => ApduRequest::Other,
    })
}

/// `WhoIsRequest::decode`: the low and high instance limits. Named
/// `who_is_of`.
#[verifier::external_body]
fn decode_who_is(data: &[u8]) -> (r: Option<WhoIsRange>)
    ensures
        r == who_is_of(data@),
{
    let w = WhoIsRequest::decode(data).ok()?;
    Some(WhoIsRange { low: w.device_instance_range_low_limit, high: w.device_instance_range_high_limit })
}

/// `ReadPropertyRequest::decode`, with object type and property given by
/// their numeric codes (`u32::from`). Named `read_property_of`.
#[verifier::external_body]
fn decode_read_property(data: &[u8]) -> (r: Option<ReadPropertyTarget>)
    ensures
        r == read_property_of(data@),
{
    let rp = ReadPropertyRequest::decode(data).ok()?;
    Some(ReadPropertyTarget { object_type: u32::from(rp.object_identifier.object_type), instance: rp.object_identifier.instance, property: u32::from(rp.property_identifier), array_index: rp.property_array_index })
}

/// `IAmRequest::new` and `IAmRequest::encode`, the object type from its
/// code (`ObjectType::from`) and the segmentation from its code
/// (`Segmentation::try_from`). Named `i_am_bytes`.
#[verifier::external_body]
fn encode_i_am(object_type: u32, instance: u32, max_apdu: u32, segmentation: u32, vendor: u16) -> (r: Option<Vec<u8>>)
    ensures
        r matches Some(b) ==> i_am_bytes(object_type, instance, max_apdu, segmentation, vendor) == Some(b@),
        r is None ==> i_am_bytes(object_type, instance, max_apdu, segmentation, vendor) is None,
{
    let id = ObjectIdentifier::new(ObjectType::from(object_type), instance);
    let iam = IAmRequest::new(id, max_apdu, Segmentation::try_from(segmentation).ok()?, vendor);
    let mut out = Vec::new();
    iam.encode(&mut out).ok()?;
    Some(out)
}

/// `Apdu::encode` of an unconfirmed I-Am request around service data: the
/// type byte 0x10, the service choice 0x00, then the service data
/// (`i_am_apdu_bytes`).
#[verifier::external_body]
fn encode_i_am_apdu(service_data: Vec<u8>) -> (r: Vec<u8>)
    ensures
        r@ == i_am_apdu_bytes(service_data@),
{
    Apdu::UnconfirmedRequest { service_choice: UnconfirmedServiceChoice::IAm, service_data }.encode()
}

/// Whether a Who-Is range covers `instance`: no limits cover every
/// device, one limit bounds one side, two bound both.
pub open spec fn who_is_covers(range: WhoIsRange, instance: u32) -> bool {
    match (range.low, range.high) {
        (None, None) => true,
        (Some(low), Some(high)) => low <= instance && instance <= high,
        (Some(low), None) => low <= instance,
        (None, Some(high)) => instance <= high,
    }
}

/// Whether a Who-Is range covers `instance`.
pub fn who_is_matches(range: WhoIsRange, instance: u32) -> (r: bool)
    ensures
        r == who_is_covers(range, instance),
{
    match (range.low, range.high) {
        (None, None) => true,
        (Some(low), Some(high)) => instance >= low && instance <= high,
        (Some(low), None) => instance >= low,
        (None, Some(high)) => instance <= high,
    }
}

/// A BVLC frame: type 0x81, the function, the total length (big endian,
/// modulo 65536), then an NPDU that expects no reply, then the APDU.
pub open spec fn bvlc_frame(apdu: Seq<u8>, function: u8) -> Seq<u8> {
    let payload = npdu_bytes(false) + apdu;
    let total = (4 + payload.len()) % 0x1_0000;
    seq![BVLC_TYPE_BIP, function, (total / 0x100) as u8, (total % 0x100) as u8] + payload
}

/// The BVLC length field of a frame shorter than 64 KiB is the frame's
/// total length.
pub proof fn bvlc_length_field_is_frame_length(apdu: Seq<u8>, function: u8)
    requires
        4 + npdu_bytes(false).len() + apdu.len() < 0x1_0000,
    ensures
        bvlc_frame(apdu, function).len() == 4 + npdu_bytes(false).len() + apdu.len(),
        bvlc_frame(apdu, function)[2] as int * 0x100 + bvlc_frame(apdu, function)[3] as int
            == bvlc_frame(apdu, function).len(),
{
}

/// Wrap an APDU in NPDU and BVLC. `function` is 0x0A for unicast or 0x0B
/// for broadcast (Annex J).
pub fn wrap_bvlc(apdu: &[u8], function: u8) -> (out: Vec<u8>)
    ensures
        out@ == bvlc_frame(apdu@, function),
{
    let npdu = encode_npdu(false);
    let mut out: Vec<u8> = Vec::new();
    out.push(BVLC_TYPE_BIP);
    out.push(function);
    out.push(0);
    out.push(0);
    let mut i: usize = 0;
    while i < npdu.len()
        invariant
            i <= npdu@.len(),
            npdu@ == npdu_bytes(false),
            out@ =~= seq![BVLC_TYPE_BIP, function, 0u8, 0u8] + npdu@.take(i as int),
        decreases npdu@.len() - i,
    {
        out.push(npdu[i]);
        i = i + 1;
    }
    let mut j: usize = 0;
    while j < apdu.len()
        invariant
            j <= apdu@.len(),
            npdu@ == npdu_bytes(false),
            out@ =~= seq![BVLC_TYPE_BIP, function, 0u8, 0u8] + npdu@ + apdu@.take(j as int),
        decreases apdu@.len() - j,
    {
        out.push(apdu[j]);
        j = j + 1;
    }
    proof {
        assert(npdu@.take(npdu@.len() as int) =~= npdu@);
        assert(apdu@.take(apdu@.len() as int) =~= apdu@);
    }
    let len = out.len();
    #[verifier::truncate]
    let total = len as u16;
    proof {
        assert(total == len % 0x1_0000) by (bit_vector)
            requires
                total == len as u16,
        ;
        assert((total >> 8u16) as u8 == (total / 0x100) as u8) by (bit_vector);
        assert((total & 0xFF) as u8 == (total % 0x100) as u8) by (bit_vector);
    }
    out.set(2, (total >> 8u16) as u8);
    out.set(3, (total & 0xFF) as u8);
    proof {
        assert(out@ =~= bvlc_frame(apdu@, function));
    }
    out
}

/// The I-Am frame this device broadcasts.
pub open spec fn i_am_frame_spec() -> Option<Seq<u8>> {
    match i_am_bytes(
        OBJECT_DEVICE,
        DEFAULT_DEVICE_INSTANCE,
        MAX_APDU_LENGTH_ACCEPTED,
        SEGMENTATION_NONE,
        VENDOR_IDENTIFIER,
    ) {
        None => None,
        Some(svc) => Some(bvlc_frame(i_am_apdu_bytes(svc), ORIGINAL_BROADCAST_NPDU)),
    }
}

/// Build the I-Am broadcast frame: device 11001, 1476-byte APDUs, no
/// segmentation, vendor 260.
pub fn iam_frame() -> (r: Option<Vec<u8>>)
    ensures
        r matches Some(b) ==> i_am_frame_spec() == Some(b@),
        r is None ==> i_am_frame_spec() is None,
{
    let svc = match encode_i_am(
        OBJECT_DEVICE,
        DEFAULT_DEVICE_INSTANCE,
        MAX_APDU_LENGTH_ACCEPTED,
        SEGMENTATION_NONE,
        VENDOR_IDENTIFIER,
    ) {
        Some(s) => s,
        None => return None,
    };
    let apdu = encode_i_am_apdu(svc);
    Some(wrap_bvlc(apdu.as_slice(), ORIGINAL_BROADCAST_NPDU))
}

/// What the device does with an inbound frame: BACnet/IP unicast or
/// broadcast frames carry an NPDU then an APDU; a Who-Is covering this
/// device is answered with I-Am, a ReadProperty of an Analog Input's
/// Present_Value is handed on, anything else is ignored.
pub open spec fn handle_spec(frame: Seq<u8>) -> Result<FrameActionView, BacnetError> {
    if frame.len() < 4 || frame[0] != BVLC_TYPE_BIP {
        Ok(FrameActionView::Ignore)
    } else if frame[1] != ORIGINAL_UNICAST_NPDU && frame[1] != ORIGINAL_BROADCAST_NPDU {
        Ok(FrameActionView::Ignore)
    } else {
        match npdu_length_of(frame.skip(4)) {
            None => Err(BacnetError::Npdu),
            Some(n) => match apdu_request_of(frame.skip(4 + n)) {
                None => Err(BacnetError::Apdu),
                Some(ApduRequestView::WhoIs(data)) => match who_is_of(data) {
                    None => Err(BacnetError::WhoIs),
                    Some(range) => if !who_is_covers(range, DEFAULT_DEVICE_INSTANCE) {
                        Ok(FrameActionView::Ignore)
                    } else {
                        match i_am_frame_spec() {
                            None => Err(BacnetError::IAmEncode),
                            Some(f) => Ok(FrameActionView::Reply(f)),
                        }
                    },
                },
                Some(ApduRequestView::ReadProperty(invoke_id, data)) => match read_property_of(data) {
                    None => Err(BacnetError::ReadProperty),
                    Some(t) => if t.object_type == OBJECT_ANALOG_INPUT && t.property
                        == PROP_PRESENT_VALUE {
                        Ok(FrameActionView::ReadPresentValue(invoke_id, t.instance))
                    } else {
                        Ok(FrameActionView::Ignore)
                    },
                },
                Some(ApduRequestView::Other) => Ok(FrameActionView::Ignore),
            },
        }
    }
}

/// A Who-Is is answered by range alone: on a BACnet/IP unicast or
/// broadcast frame whose APDU is a Who-Is, the device replies with the
/// I-Am of device 11001 (1476-byte APDUs, no segmentation, vendor 260,
/// broadcast) exactly when the Who-Is has no low limit above 11001 and no
/// high limit below it, and ignores the frame otherwise.
pub proof fn who_is_covering_this_device_gets_i_am(frame: Seq<u8>, n: usize, data: Seq<u8>, range: WhoIsRange)
    requires
        frame.len() >= 4,
        frame[0] == 0x81,
        frame[1] == 0x0A || frame[1] == 0x0B,
        npdu_length_of(frame.skip(4)) == Some(n),
        apdu_request_of(frame.skip(4 + n)) == Some(ApduRequestView::WhoIs(data)),
        who_is_of(data) == Some(range),
    ensures
        ({
            let in_range = (range.low matches Some(low) ==> low <= 11001) && (range.high matches Some(
                high,
            ) ==> 11001 <= high);
            &&& !in_range ==> handle_spec(frame) == Ok::<FrameActionView, BacnetError>(
                FrameActionView::Ignore,
            )
            &&& in_range ==> match i_am_bytes(8, 11001, 1476, 3, 260) {
                Some(svc) => handle_spec(frame) == Ok::<FrameActionView, BacnetError>(
                    FrameActionView::Reply(bvlc_frame(i_am_apdu_bytes(svc), 0x0B)),
                ),
                None => handle_spec(frame) == Err::<FrameActionView, BacnetError>(
                    BacnetError::IAmEncode,
                ),
            }
        }),
{
}

/// A ReadProperty is handed on by its target alone: on a BACnet/IP unicast
/// or broadcast frame whose APDU is a confirmed ReadProperty, a request for
/// Present_Value (85) of an Analog Input (type 0) is handed on with the
/// request's invoke id and the object's instance, and any other target is
/// ignored. A frame that is not BACnet/IP unicast or broadcast is ignored.
pub proof fn read_property_of_present_value_is_handed_on(
    frame: Seq<u8>,
    n: usize,
    invoke_id: u8,
    data: Seq<u8>,
    t: ReadPropertyTarget,
)
    ensures
        (frame.len() < 4 || frame[0] != 0x81 || (frame[1] != 0x0A && frame[1] != 0x0B))
            ==> handle_spec(frame) == Ok::<FrameActionView, BacnetError>(FrameActionView::Ignore),
        (frame.len() >= 4 && frame[0] == 0x81 && (frame[1] == 0x0A || frame[1] == 0x0B)
            && npdu_length_of(frame.skip(4)) == Some(n) && apdu_request_of(frame.skip(4 + n))
            == Some(ApduRequestView::ReadProperty(invoke_id, data)) && read_property_of(data)
            == Some(t)) ==> handle_spec(frame) == if t.object_type == 0 && t.property == 85 {
            Ok::<FrameActionView, BacnetError>(FrameActionView::ReadPresentValue(invoke_id, t.instance))
        } else {
            Ok::<FrameActionView, BacnetError>(FrameActionView::Ignore)
        },
{
}

fn suffix(s: &[u8], start: usize) -> (r: Vec<u8>)
    requires
        start <= s@.len(),
    ensures
        r@ == s@.skip(start as int),
{
    let mut r: Vec<u8> = Vec::new();
    let mut i: usize = start;
    while i < s.len()
        invariant
            start <= i <= s@.len(),
            r@ =~= s@.subrange(start as int, i as int),
        decreases s@.len() - i,
    {
        r.push(s[i]);
        i = i + 1;
    }
    r
}

/// Dispatch on an inbound frame.
pub fn handle(frame: &[u8]) -> (r: Result<FrameAction, BacnetError>)
    ensures
        match r {
            Ok(a) => handle_spec(frame@) == Ok::<FrameActionView, BacnetError>(a.view()),
            Err(e) => handle_spec(frame@) == Err::<FrameActionView, BacnetError>(e),
        },
{
    if frame.len() < 4 || frame[0] != BVLC_TYPE_BIP {
        return Ok(FrameAction::Ignore);
    }
    let function = frame[1];
    if function != ORIGINAL_UNICAST_NPDU && function != ORIGINAL_BROADCAST_NPDU {
        return Ok(FrameAction::Ignore);
    }
    let after_bvlc = suffix(frame, 4);
    let npdu_len = match npdu_length(after_bvlc.as_slice()) {
        Some(n) => n,
        None => return Err(BacnetError::Npdu),
    };
    let apdu_bytes = suffix(frame, 4 + npdu_len);
    match decode_apdu(apdu_bytes.as_slice()) {
        None => Err(BacnetError::Apdu),
        Some(ApduRequest::WhoIs(data)) => match decode_who_is(data.as_slice()) {
            None => Err(BacnetError::WhoIs),
            Some(range) => if !who_is_matches(range, DEFAULT_DEVICE_INSTANCE) {
                Ok(FrameAction::Ignore)
            } else {
                match iam_frame() {
                    None => Err(BacnetError::IAmEncode),
                    Some(f) => Ok(FrameAction::Reply(f)),
                }
            },
        },
        Some(ApduRequest::ReadProperty(invoke_id, data)) => match decode_read_property(
            data.as_slice(),
        ) {
            None => Err(BacnetError::ReadProperty),
            Some(t) => if t.object_type == OBJECT_ANALOG_INPUT && t.property == PROP_PRESENT_VALUE {
                Ok(FrameAction::ReadPresentValue(invoke_id, t.instance))
            } else {
                Ok(FrameAction::Ignore)
            },
        },
        Some(ApduRequest::Other) => Ok(FrameAction::Ignore),
    }
}

} // verus!
