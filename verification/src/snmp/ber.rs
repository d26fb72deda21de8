//! BER encoding and decoding of SNMP messages, through the `rasn`,
//! `rasn-snmp` and `rasn-smi` crates. Every function here turns bytes into
//! plain values of this library or back; what the codec computes is named
//! by an uninterpreted function of its inputs.

use crate::snmp::pdu::{
    bindings_fit_ber, PduKind, ReplyKind, RequestPdu, RequestPduView, ResponsePdu, ResponsePduView, VarValue,
};
use rasn::ber::{decode, encode};
use rasn::types::{Integer, ObjectIdentifier, OctetString};
use rasn_smi::v2::ObjectSyntax;
use rasn_snmp::v2::{Pdu, Pdus, Report, Response, VarBind, VarBindValue};
use rasn_snmp::v3::{HeaderData, Message, ScopedPdu, ScopedPduData, USMSecurityParameters};
use vstd::prelude::*;

verus! {

/// An SNMPv1/v2c message: version, community, and the BER of its PDU.
pub struct V2cMessage {
    /// BER of the message version INTEGER (1 for v2c).
    pub version: Vec<u8>,
    /// Community string.
    pub community: Vec<u8>,
    /// BER of the PDU.
    pub data: Vec<u8>,
}

/// A v2c message as plain values.
pub struct V2cMessageView {
    /// BER of the message version INTEGER.
    pub version: Seq<u8>,
    /// Community string.
    pub community: Seq<u8>,
    /// BER of the PDU.
    pub data: Seq<u8>,
}

/// The scoped-PDU part of a v3 message.
pub enum ScopedData {
    /// BER of a plaintext scoped PDU.
    Cleartext(Vec<u8>),
    /// An encrypted scoped PDU.
    Encrypted(Vec<u8>),
}

/// The scoped-PDU part of a v3 message, as plain values.
pub enum ScopedDataView {
    /// BER of a plaintext scoped PDU.
    Cleartext(Seq<u8>),
    /// An encrypted scoped PDU.
    Encrypted(Seq<u8>),
}

/// An SNMPv3 message (RFC 3412 6).
pub struct V3Message {
    /// BER of the message version INTEGER (3).
    pub version: Vec<u8>,
    /// BER of the msgID INTEGER.
    pub message_id: Vec<u8>,
    /// BER of the msgMaxSize INTEGER.
    pub max_size: Vec<u8>,
    /// msgFlags: auth 0x01, priv 0x02, reportable 0x04.
    pub flags: Vec<u8>,
    /// BER of the msgSecurityModel INTEGER (3 for USM).
    pub security_model: Vec<u8>,
    /// BER of the security parameters.
    pub security_parameters: Vec<u8>,
    /// The scoped PDU, plain or encrypted.
    pub scoped: ScopedData,
}

/// A v3 message as plain values.
pub struct V3MessageView {
    /// BER of the message version INTEGER.
    pub version: Seq<u8>,
    /// BER of the msgID INTEGER.
    pub message_id: Seq<u8>,
    /// BER of the msgMaxSize INTEGER.
    pub max_size: Seq<u8>,
    /// msgFlags.
    pub flags: Seq<u8>,
    /// BER of the msgSecurityModel INTEGER.
    pub security_model: Seq<u8>,
    /// BER of the security parameters.
    pub security_parameters: Seq<u8>,
    /// The scoped PDU.
    pub scoped: ScopedDataView,
}

/// USM security parameters (RFC 3414 2.4).
pub struct UsmParams {
    /// msgAuthoritativeEngineID.
    pub engine_id: Vec<u8>,
    /// BER of the msgAuthoritativeEngineBoots INTEGER.
    pub engine_boots: Vec<u8>,
    /// BER of the msgAuthoritativeEngineTime INTEGER.
    pub engine_time: Vec<u8>,
    /// msgUserName.
    pub user_name: Vec<u8>,
    /// msgAuthenticationParameters.
    pub auth_params: Vec<u8>,
    /// msgPrivacyParameters.
    pub priv_params: Vec<u8>,
}

/// USM security parameters as plain values.
pub struct UsmParamsView {
    /// msgAuthoritativeEngineID.
    pub engine_id: Seq<u8>,
    /// BER of the msgAuthoritativeEngineBoots INTEGER.
    pub engine_boots: Seq<u8>,
    /// BER of the msgAuthoritativeEngineTime INTEGER.
    pub engine_time: Seq<u8>,
    /// msgUserName.
    pub user_name: Seq<u8>,
    /// msgAuthenticationParameters.
    pub auth_params: Seq<u8>,
    /// msgPrivacyParameters.
    pub priv_params: Seq<u8>,
}

/// A scoped PDU (RFC 3412 6.8): context engine id, context name, and the
/// BER of its PDU.
pub struct ScopedPduParts {
    /// contextEngineID.
    pub engine_id: Vec<u8>,
    /// contextName.
    pub name: Vec<u8>,
    /// BER of the PDU.
    pub data: Vec<u8>,
}

/// A scoped PDU as plain values.
pub struct ScopedPduView {
    /// contextEngineID.
    pub engine_id: Seq<u8>,
    /// contextName.
    pub name: Seq<u8>,
    /// BER of the PDU.
    pub data: Seq<u8>,
}

impl V2cMessage {
    /// This message as plain values.
    pub open spec fn view(&self) -> V2cMessageView {
        V2cMessageView { version: self.version@, community: self.community@, data: self.data@ }
    }
}

impl ScopedData {
    /// This scoped data as plain values.
    pub open spec fn view(&self) -> ScopedDataView {
        match self {
            ScopedData::Cleartext(b) => ScopedDataView::Cleartext(b@),
            ScopedData::Encrypted(b) => ScopedDataView::Encrypted(b@),
        }
    }
}

impl V3Message {
    /// This message as plain values.
    pub open spec fn view(&self) -> V3MessageView {
        V3MessageView {
            version: self.version@,
            message_id: self.message_id@,
            max_size: self.max_size@,
            flags: self.flags@,
            security_model: self.security_model@,
            security_parameters: self.security_parameters@,
            scoped: self.scoped.view(),
        }
    }
}

impl UsmParams {
    /// These parameters as plain values.
    pub open spec fn view(&self) -> UsmParamsView {
        UsmParamsView {
            engine_id: self.engine_id@,
            engine_boots: self.engine_boots@,
            engine_time: self.engine_time@,
            user_name: self.user_name@,
            auth_params: self.auth_params@,
            priv_params: self.priv_params@,
        }
    }
}

impl ScopedPduParts {
    /// This scoped PDU as plain values.
    pub open spec fn view(&self) -> ScopedPduView {
        ScopedPduView { engine_id: self.engine_id@, name: self.name@, data: self.data@ }
    }
}

/// Plain bytes of an optional byte vector.
pub open spec fn bytes_view(r: Option<Vec<u8>>) -> Option<Seq<u8>> {
    match r {
        Some(b) => Some(b@),
        None => None,
    }
}

/// The request PDU that a PDU's BER decodes to.
pub uninterp spec fn request_pdu_of(ber: Seq<u8>) -> Option<RequestPduView>;

/// BER of a reply PDU of the given kind.
pub uninterp spec fn reply_pdu_bytes(kind: ReplyKind, pdu: ResponsePduView) -> Option<Seq<u8>>;

/// The v2c message that a datagram decodes to.
pub uninterp spec fn v2c_message_of(datagram: Seq<u8>) -> Option<V2cMessageView>;

/// BER of a v2c message.
pub uninterp spec fn v2c_message_bytes(message: V2cMessageView) -> Option<Seq<u8>>;

/// The v3 message that a datagram decodes to.
pub uninterp spec fn v3_message_of(datagram: Seq<u8>) -> Option<V3MessageView>;

/// BER of a v3 message.
pub uninterp spec fn v3_message_bytes(message: V3MessageView) -> Option<Seq<u8>>;

/// The USM parameters that a BER buffer decodes to.
pub uninterp spec fn usm_params_of(ber: Seq<u8>) -> Option<UsmParamsView>;

/// BER of USM parameters.
pub uninterp spec fn usm_params_bytes(params: UsmParamsView) -> Option<Seq<u8>>;

/// The scoped PDU that a BER buffer decodes to.
pub uninterp spec fn scoped_pdu_of(ber: Seq<u8>) -> Option<ScopedPduView>;

/// BER of a scoped PDU.
pub uninterp spec fn scoped_pdu_bytes(scoped: ScopedPduView) -> Option<Seq<u8>>;

/// `rasn::ber::decode::<Pdus>`: the kind, request id and binding names of
/// a Get, GetNext or GetBulk request; any other PDU reads as kind `Other`
/// with request id 0 and no names. Named `request_pdu_of`.
#[verifier::external_body]
pub(crate) fn decode_pdus(ber: &[u8]) -> (r: Option<RequestPdu>)
    ensures
        r matches Some(p) ==> request_pdu_of(ber@) == Some(p.view()),
        r is None ==> request_pdu_of(ber@) is None,
{
    let (kind, request_id, vbs) = match decode::<Pdus>(ber).ok()? {
        Pdus::GetRequest(r) => (PduKind::Get, r.0.request_id, r.0.variable_bindings),
        Pdus::GetNextRequest(r) => (PduKind::GetNext, r.0.request_id, r.0.variable_bindings),
        Pdus::GetBulkRequest(r) => (PduKind::GetBulk, r.0.request_id, r.0.variable_bindings),
        _ => (PduKind::Other, 0, Vec::new()),
    };
    let oids = vbs.iter().map(|vb| vb.name.to_vec()).collect();
    Some(RequestPdu { kind, request_id, oids })
}

/// `rasn::ber::encode` of a Response or Report PDU built from the plain
/// reply (`ObjectIdentifier::new` for each name, which refuses OIDs that
/// BER cannot carry). The encoder packs the first two arcs as
/// `first * 40 + second` in 32 bits, which overflows (and panics) beyond
/// `bindings_fit_ber`, so such names are not admitted. Named
/// `reply_pdu_bytes`.
#[verifier::external_body]
pub(crate) fn encode_pdus(kind: ReplyKind, pdu: &ResponsePdu) -> (r: Option<Vec<u8>>)
    requires
        bindings_fit_ber(pdu.view().bindings),
    ensures
        bytes_view(r) == reply_pdu_bytes(kind, pdu.view()),
{
    let mut vbs = Vec::new();
    for b in &pdu.bindings {
        let value = match b.value {
            VarValue::Integer(v) => VarBindValue::Value(ObjectSyntax::from(v)),
            VarValue::NoSuchInstance => VarBindValue::NoSuchInstance,
            VarValue::EndOfMibView => VarBindValue::EndOfMibView,
        };
        vbs.push(VarBind { name: ObjectIdentifier::new(b.oid.clone())?, value });
    }
    let p = Pdu { request_id: pdu.request_id, error_status: pdu.error_status, error_index: pdu.error_index, variable_bindings: vbs };
    let pdus = match kind { ReplyKind::Response => Pdus::Response(Response(p)), ReplyKind::Report => Pdus::Report(Report(p)) };
    encode(&pdus).ok()
}

/// `rasn::ber::decode::<rasn_snmp::v2c::Message<Pdus>>`, with the version
/// and the PDU handed back as their BER (`rasn::ber::encode`). Named
/// `v2c_message_of`.
#[verifier::external_body]
pub(crate) fn decode_v2c(datagram: &[u8]) -> (r: Option<V2cMessage>)
    ensures
        r matches Some(m) ==> v2c_message_of(datagram@) == Some(m.view()),
        r is None ==> v2c_message_of(datagram@) is None,
{
    let m: rasn_snmp::v2c::Message<Pdus> = decode(datagram).ok()?;
    let version = encode(&m.version).ok()?;
    Some(V2cMessage { version, community: m.community.to_vec(), data: encode(&m.data).ok()? })
}

/// `rasn::ber::encode` of a v2c message whose version and PDU are given as
/// BER (read back with `rasn::ber::decode`). Named `v2c_message_bytes`.
#[verifier::external_body]
pub(crate) fn encode_v2c(m: &V2cMessage) -> (r: Option<Vec<u8>>)
    ensures
        bytes_view(r) == v2c_message_bytes(m.view()),
{
    let data: Pdus = decode(&m.data).ok()?;
    let msg = rasn_snmp::v2c::Message { version: decode(&m.version).ok()?, community: OctetString::from(m.community.clone()), data };
    encode(&msg).ok()
}

/// `rasn::ber::decode::<rasn_snmp::v3::Message>`, with its INTEGERs and a
/// plaintext scoped PDU handed back as their BER (`rasn::ber::encode`).
/// Named `v3_message_of`.
#[verifier::external_body]
pub(crate) fn decode_v3(datagram: &[u8]) -> (r: Option<V3Message>)
    ensures
        r matches Some(m) ==> v3_message_of(datagram@) == Some(m.view()),
        r is None ==> v3_message_of(datagram@) is None,
{
    let m: Message = decode(datagram).ok()?;
    let scoped = match m.scoped_data {
        ScopedPduData::CleartextPdu(p) => ScopedData::Cleartext(encode(&p).ok()?),
        ScopedPduData::EncryptedPdu(c) => ScopedData::Encrypted(c.to_vec()),
    };
    let g = m.global_data;
    Some(V3Message { version: encode(&m.version).ok()?, message_id: encode(&g.message_id).ok()?, max_size: encode(&g.max_size).ok()?, flags: g.flags.to_vec(), security_model: encode(&g.security_model).ok()?, security_parameters: m.security_parameters.to_vec(), scoped })
}

/// `rasn::ber::encode` of a v3 message; its INTEGERs and a plaintext
/// scoped PDU, given as BER, are read back with `rasn::ber::decode`. Named
/// `v3_message_bytes`.
#[verifier::external_body]
pub(crate) fn encode_v3(m: &V3Message) -> (r: Option<Vec<u8>>)
    ensures
        bytes_view(r) == v3_message_bytes(m.view()),
{
    let scoped_data = match &m.scoped {
        ScopedData::Cleartext(b) => ScopedPduData::CleartextPdu(decode(b).ok()?),
        ScopedData::Encrypted(c) => ScopedPduData::EncryptedPdu(OctetString::from(c.clone())),
    };
    let global_data = HeaderData { message_id: decode(&m.message_id).ok()?, max_size: decode(&m.max_size).ok()?, flags: OctetString::from(m.flags.clone()), security_model: decode(&m.security_model).ok()? };
    let msg = Message { version: decode(&m.version).ok()?, global_data, security_parameters: OctetString::from(m.security_parameters.clone()), scoped_data };
    encode(&msg).ok()
}

/// `rasn::ber::decode::<USMSecurityParameters>`, with boots and time handed
/// back as the BER of their INTEGERs (`rasn::ber::encode`). Named
/// `usm_params_of`.
#[verifier::external_body]
pub(crate) fn decode_usm(ber: &[u8]) -> (r: Option<UsmParams>)
    ensures
        r matches Some(p) ==> usm_params_of(ber@) == Some(p.view()),
        r is None ==> usm_params_of(ber@) is None,
{
    let u: USMSecurityParameters = decode(ber).ok()?;
    Some(UsmParams { engine_id: u.authoritative_engine_id.to_vec(), engine_boots: encode(&u.authoritative_engine_boots).ok()?, engine_time: encode(&u.authoritative_engine_time).ok()?, user_name: u.user_name.to_vec(), auth_params: u.authentication_parameters.to_vec(), priv_params: u.privacy_parameters.to_vec() })
}

/// `rasn::ber::encode` of USM security parameters whose boots and time are
/// given as BER INTEGERs (read back with `rasn::ber::decode`). Named
/// `usm_params_bytes`.
#[verifier::external_body]
pub(crate) fn encode_usm(p: &UsmParams) -> (r: Option<Vec<u8>>)
    ensures
        bytes_view(r) == usm_params_bytes(p.view()),
{
    let u = USMSecurityParameters { authoritative_engine_id: OctetString::from(p.engine_id.clone()), authoritative_engine_boots: decode(&p.engine_boots).ok()?, authoritative_engine_time: decode(&p.engine_time).ok()?, user_name: OctetString::from(p.user_name.clone()), authentication_parameters: OctetString::from(p.auth_params.clone()), privacy_parameters: OctetString::from(p.priv_params.clone()) };
    encode(&u).ok()
}

/// `rasn::ber::decode::<ScopedPdu>`, with its PDU handed back as BER
/// (`rasn::ber::encode`). Named `scoped_pdu_of`.
#[verifier::external_body]
pub(crate) fn decode_scoped(ber: &[u8]) -> (r: Option<ScopedPduParts>)
    ensures
        r matches Some(s) ==> scoped_pdu_of(ber@) == Some(s.view()),
        r is None ==> scoped_pdu_of(ber@) is None,
{
    let s: ScopedPdu = decode(ber).ok()?;
    Some(ScopedPduParts { engine_id: s.engine_id.to_vec(), name: s.name.to_vec(), data: encode(&s.data).ok()? })
}

/// `rasn::ber::encode` of a scoped PDU whose PDU is given as BER
/// (`rasn::ber::decode::<Pdus>`). Named `scoped_pdu_bytes`.
#[verifier::external_body]
pub(crate) fn encode_scoped(s: &ScopedPduParts) -> (r: Option<Vec<u8>>)
    ensures
        bytes_view(r) == scoped_pdu_bytes(s.view()),
{
    let data: Pdus = decode(&s.data).ok()?;
    let scoped = ScopedPdu { engine_id: OctetString::from(s.engine_id.clone()), name: OctetString::from(s.name.clone()), data };
    encode(&scoped).ok()
}

/// The `u32` value of a BER INTEGER, when it has one.
pub uninterp spec fn integer_u32_of(ber: Seq<u8>) -> Option<u32>;

/// BER of the INTEGER whose value is `x`.
pub uninterp spec fn u32_integer_bytes(x: u32) -> Option<Seq<u8>>;

/// `rasn::ber::decode::<Integer>` then `u32::try_from`: the INTEGER's
/// value when it lies in `0..=u32::MAX`. Named `integer_u32_of`.
#[verifier::external_body]
pub(crate) fn integer_u32(ber: &[u8]) -> (r: Option<u32>)
    ensures
        r == integer_u32_of(ber@),
{
    u32::try_from(decode::<Integer>(ber).ok()?).ok()
}

/// `rasn::ber::encode` of `Integer::from(x)`: the BER of the INTEGER `x`.
/// Named `u32_integer_bytes`.
#[verifier::external_body]
pub(crate) fn u32_integer(x: u32) -> (r: Option<Vec<u8>>)
    ensures
        bytes_view(r) == u32_integer_bytes(x),
{
    encode(&Integer::from(x)).ok()
}

} // verus!
