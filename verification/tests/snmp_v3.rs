use industrial_fixtures::snmp::store::OidValues;
use industrial_fixtures::snmp::usm::{
    aes_cfb_decrypt, aes_cfb_encrypt, derive_localized_key, hmac_sign, AUTH_TRUNC_LEN, PRIV_KEY_LEN,
};
use industrial_fixtures::snmp::v3::{engine_time_from_secs, handle_v3_datagram, respond_v3, AgentState};
use rasn::types::{Integer, ObjectIdentifier, OctetString};
use rasn_smi::v2::ObjectSyntax;
use rasn_snmp::v2::{Pdu, Pdus, VarBind, VarBindValue};
use rasn_snmp::v3::{HeaderData, Message, ScopedPdu, ScopedPduData, USMSecurityParameters};

const USM_STATS_UNKNOWN_ENGINE_IDS: [u32; 11] = [1, 3, 6, 1, 6, 3, 15, 1, 1, 4, 0];

fn get_request(target_oid: &[u32], engine_id: &[u8]) -> ScopedPdu {
    ScopedPdu {
        engine_id: OctetString::from(engine_id.to_vec()),
        name: OctetString::from_static(&[]),
        data: Pdus::GetRequest(rasn_snmp::v2::GetRequest(Pdu {
            request_id: 7777,
            error_status: 0,
            error_index: 0,
            variable_bindings: vec![VarBind {
                name: ObjectIdentifier::new(target_oid.to_vec()).expect("oid"),
                value: VarBindValue::Unspecified,
            }],
        })),
    }
}

/// Build a request the way a client does: optionally encrypt the scoped
/// PDU, sign the message with zeroed auth parameters, then re-encode with
/// the real tag.
fn make_request(
    engine_id: &[u8],
    user: &[u8],
    auth_key: &[u8],
    priv_key: Option<&[u8]>,
    scoped: ScopedPdu,
    tamper: bool,
) -> Vec<u8> {
    make_request_with_flags(engine_id, user, auth_key, priv_key, scoped, tamper, None)
}

fn make_request_with_flags(
    engine_id: &[u8],
    user: &[u8],
    auth_key: &[u8],
    priv_key: Option<&[u8]>,
    scoped: ScopedPdu,
    tamper: bool,
    flags_override: Option<u8>,
) -> Vec<u8> {
    let engine_boots = 1_u32;
    let engine_time = 0_u32;
    let (scoped_data, priv_params, flags) = match priv_key {
        Some(k) => {
            let pt = rasn::ber::encode(&scoped).expect("encode scoped");
            let (ct, salt) = aes_cfb_encrypt(&pt, k, engine_boots, engine_time);
            (ScopedPduData::EncryptedPdu(OctetString::from(ct)), salt, 0x03)
        }
        None => (ScopedPduData::CleartextPdu(scoped), Vec::new(), 0x01),
    };
    let flags = flags_override.unwrap_or(flags);
    let usm_params = USMSecurityParameters {
        authoritative_engine_id: OctetString::from(engine_id.to_vec()),
        authoritative_engine_boots: engine_boots.into(),
        authoritative_engine_time: engine_time.into(),
        user_name: OctetString::from(user.to_vec()),
        authentication_parameters: OctetString::from(vec![0_u8; AUTH_TRUNC_LEN]),
        privacy_parameters: OctetString::from(priv_params),
    };
    let mut msg = Message {
        version: Integer::from(3),
        global_data: HeaderData {
            message_id: 7777.into(),
            max_size: 65507.into(),
            flags: OctetString::from(vec![flags]),
            security_model: Integer::from(3),
        },
        security_parameters: OctetString::from_static(&[]),
        scoped_data,
    };
    msg.encode_security_parameters(rasn::Codec::Ber, &usm_params)
        .unwrap_or_else(|e| panic!("usm encode: {e}"));
    let with_zero_auth = rasn::ber::encode(&msg).expect("encode v3");
    let mut mac = hmac_sign(auth_key, &with_zero_auth);
    if tamper {
        mac[0] ^= 1;
    }
    let real_usm = USMSecurityParameters { authentication_parameters: OctetString::from(mac), ..usm_params };
    msg.encode_security_parameters(rasn::Codec::Ber, &real_usm)
        .unwrap_or_else(|e| panic!("usm re-encode: {e}"));
    rasn::ber::encode(&msg).expect("encode v3 final")
}

fn make_discovery_request() -> Vec<u8> {
    make_discovery_request_with_id(Integer::from(12345))
}

fn make_discovery_request_with_id(message_id: Integer) -> Vec<u8> {
    let scoped = ScopedPdu {
        engine_id: OctetString::from_static(&[]),
        name: OctetString::from_static(&[]),
        data: Pdus::GetRequest(rasn_snmp::v2::GetRequest(Pdu {
            request_id: 12345,
            error_status: 0,
            error_index: 0,
            variable_bindings: vec![],
        })),
    };
    let usm = USMSecurityParameters {
        authoritative_engine_id: OctetString::from_static(&[]),
        authoritative_engine_boots: 0.into(),
        authoritative_engine_time: 0.into(),
        user_name: OctetString::from_static(&[]),
        authentication_parameters: OctetString::from_static(&[]),
        privacy_parameters: OctetString::from_static(&[]),
    };
    let mut msg = Message {
        version: Integer::from(3),
        global_data: HeaderData {
            message_id,
            max_size: 65507.into(),
            flags: OctetString::from(vec![0x04]),
            security_model: Integer::from(3),
        },
        security_parameters: OctetString::from_static(&[]),
        scoped_data: ScopedPduData::CleartextPdu(scoped),
    };
    msg.encode_security_parameters(rasn::Codec::Ber, &usm)
        .unwrap_or_else(|e| panic!("usm encode: {e}"));
    rasn::ber::encode(&msg).expect("encode")
}

fn agent(eid: &[u8]) -> AgentState {
    let mut s = AgentState::new(eid.to_vec());
    s.register_user("gateway", b"authpass1234", b"privpass5678");
    s
}

#[test]
fn discovery_returns_report_with_engine_id() {
    let our_eid = vec![0x80, 0x00, 0x86, 0x9F, 5, 0xDE, 0xAD, 0xBE, 0xEF, 1, 2, 3, 4];
    let state = AgentState::new(our_eid.clone());
    let values = OidValues::new();
    let request = make_discovery_request();

    let reply_bytes = handle_v3_datagram(&request, &state, &values).expect("reply");
    let reply: Message = rasn::ber::decode(&reply_bytes).expect("decode reply");
    let reply_usm: USMSecurityParameters = reply
        .decode_security_parameters::<USMSecurityParameters>(rasn::Codec::Ber)
        .unwrap_or_else(|e| panic!("decode USM: {e}"));

    assert_eq!(reply_usm.authoritative_engine_id.as_ref(), our_eid.as_slice());
    let scoped = match reply.scoped_data {
        ScopedPduData::CleartextPdu(s) => s,
        _ => panic!("expected cleartext"),
    };
    let report = match scoped.data {
        Pdus::Report(r) => r,
        _ => panic!("expected Report"),
    };
    let vb = &report.0.variable_bindings[0];
    let oid: Vec<u32> = vb.name.iter().copied().collect();
    assert_eq!(oid, USM_STATS_UNKNOWN_ENGINE_IDS);
}

#[test]
fn discovery_report_echoes_request_id_and_header() {
    let our_eid = vec![0x80, 0x00, 0x86, 0x9F, 5, 1, 1, 1, 1, 1, 2, 3, 4];
    let state = AgentState::new(our_eid.clone());
    let reply_bytes =
        respond_v3(&make_discovery_request(), &state, &OidValues::new(), 77, &vec![0; 8]).expect("reply");
    let reply: Message = rasn::ber::decode(&reply_bytes).expect("decode reply");
    assert_eq!(reply.global_data.message_id, Integer::from(12345));
    assert_eq!(reply.global_data.flags.as_ref(), &[0x04]);
    let usm: USMSecurityParameters = reply
        .decode_security_parameters::<USMSecurityParameters>(rasn::Codec::Ber)
        .unwrap_or_else(|e| panic!("decode USM: {e}"));
    assert_eq!(usm.authoritative_engine_boots, Integer::from(1));
    assert_eq!(usm.authoritative_engine_time, Integer::from(77));
    let scoped = match reply.scoped_data {
        ScopedPduData::CleartextPdu(s) => s,
        _ => panic!("expected cleartext"),
    };
    match scoped.data {
        Pdus::Report(r) => assert_eq!(r.0.request_id, 12345),
        _ => panic!("expected Report"),
    }
}

#[test]
fn authpriv_round_trip_decodes_to_simulator_value() {
    let our_eid = vec![0x80, 0x00, 0x86, 0x9F, 5, 0x42, 0x42, 0x42, 0x42, 1, 2, 3, 4];
    let state = agent(&our_eid);
    let target_oid: Vec<u32> = vec![1, 3, 6, 1, 4, 1, 41_999, 42, 1, 0];
    let target_value: i64 = 9_876;
    let mut values = OidValues::new();
    values.insert(target_oid.clone(), target_value);

    let auth_key = derive_localized_key(b"authpass1234", &our_eid);
    let priv_key = derive_localized_key(b"privpass5678", &our_eid);
    let request = make_request(
        &our_eid,
        b"gateway",
        &auth_key,
        Some(&priv_key[..PRIV_KEY_LEN]),
        get_request(&target_oid, &our_eid),
        false,
    );

    let reply = handle_v3_datagram(&request, &state, &values).expect("authenticated reply");

    let msg: Message = rasn::ber::decode(&reply).expect("decode reply");
    let usm_params: USMSecurityParameters = msg
        .decode_security_parameters::<USMSecurityParameters>(rasn::Codec::Ber)
        .unwrap_or_else(|e| panic!("decode USM: {e}"));
    let ct = match msg.scoped_data {
        ScopedPduData::EncryptedPdu(c) => c,
        _ => panic!("expected encrypted reply"),
    };
    let plain = aes_cfb_decrypt(
        ct.as_ref(),
        &priv_key[..PRIV_KEY_LEN],
        u32::try_from(usm_params.authoritative_engine_boots).unwrap(),
        u32::try_from(usm_params.authoritative_engine_time).unwrap(),
        usm_params.privacy_parameters.as_ref(),
    );
    let scoped: ScopedPdu = rasn::ber::decode(&plain).expect("decode scoped");
    let response = match scoped.data {
        Pdus::Response(r) => r.0,
        _ => panic!("expected Response PDU"),
    };
    let vb = &response.variable_bindings[0];
    let oid: Vec<u32> = vb.name.iter().copied().collect();
    assert_eq!(oid, target_oid);
    match &vb.value {
        VarBindValue::Value(ObjectSyntax::Simple(s)) => {
            let asn1_int = format!("{s:?}");
            assert!(
                asn1_int.contains(&target_value.to_string()),
                "value debug `{asn1_int}` should contain {target_value}"
            );
        }
        other => panic!("unexpected varbind value: {other:?}"),
    }
}

fn reply_tag_is_valid(reply: &[u8], auth_key: &[u8]) -> bool {
    let mut msg: Message = rasn::ber::decode(reply).expect("decode reply");
    let usm: USMSecurityParameters = msg
        .decode_security_parameters::<USMSecurityParameters>(rasn::Codec::Ber)
        .unwrap_or_else(|e| panic!("decode USM: {e}"));
    let received = usm.authentication_parameters.to_vec();
    let zeroed = USMSecurityParameters {
        authentication_parameters: OctetString::from(vec![0_u8; AUTH_TRUNC_LEN]),
        ..usm
    };
    msg.encode_security_parameters(rasn::Codec::Ber, &zeroed).unwrap_or_else(|e| panic!("{e}"));
    hmac_sign(auth_key, &rasn::ber::encode(&msg).unwrap()) == received
}

#[test]
fn auth_no_priv_reply_is_cleartext_and_signed() {
    let our_eid = vec![0x80, 0x00, 0x86, 0x9F, 5, 7, 7, 7, 7, 1, 2, 3, 4];
    let state = agent(&our_eid);
    let oid = vec![1, 3, 6, 1, 4, 1, 1718, 4, 1, 3, 3, 1, 7];
    let mut values = OidValues::new();
    values.insert(oid.clone(), 150);
    let auth_key = derive_localized_key(b"authpass1234", &our_eid);
    let request = make_request(&our_eid, b"gateway", &auth_key, None, get_request(&oid, &our_eid), false);

    let reply = respond_v3(&request, &state, &values, 5, &vec![1; 8]).expect("reply");

    let msg: Message = rasn::ber::decode(&reply).expect("decode reply");
    assert_eq!(msg.global_data.flags.as_ref(), &[0x01]);
    assert!(matches!(msg.scoped_data, ScopedPduData::CleartextPdu(_)));
    assert!(reply_tag_is_valid(&reply, &auth_key));
}

#[test]
fn authpriv_reply_is_signed() {
    let our_eid = vec![0x80, 0x00, 0x86, 0x9F, 5, 8, 8, 8, 8, 1, 2, 3, 4];
    let state = agent(&our_eid);
    let oid = vec![1, 3, 6, 1, 4, 1, 1718, 4, 1, 3, 3, 1, 7];
    let mut values = OidValues::new();
    values.insert(oid.clone(), 150);
    let auth_key = derive_localized_key(b"authpass1234", &our_eid);
    let priv_key = derive_localized_key(b"privpass5678", &our_eid);
    let request = make_request(
        &our_eid,
        b"gateway",
        &auth_key,
        Some(&priv_key[..PRIV_KEY_LEN]),
        get_request(&oid, &our_eid),
        false,
    );
    let reply = respond_v3(&request, &state, &values, 5, &vec![3; 8]).expect("reply");
    let msg: Message = rasn::ber::decode(&reply).expect("decode reply");
    assert_eq!(msg.global_data.flags.as_ref(), &[0x03]);
    assert!(reply_tag_is_valid(&reply, &auth_key));
    let usm: USMSecurityParameters = msg
        .decode_security_parameters::<USMSecurityParameters>(rasn::Codec::Ber)
        .unwrap_or_else(|e| panic!("{e}"));
    assert_eq!(usm.privacy_parameters.as_ref(), &[3; 8]);
    assert_eq!(usm.user_name.as_ref(), b"gateway");
}

#[test]
fn tampered_hmac_is_dropped() {
    let our_eid = vec![0x80, 0x00, 0x86, 0x9F, 5, 9, 9, 9, 9, 1, 2, 3, 4];
    let state = agent(&our_eid);
    let oid = vec![1, 3, 6, 1, 4, 1, 1718, 4, 1, 3, 3, 1, 7];
    let auth_key = derive_localized_key(b"authpass1234", &our_eid);
    let request = make_request(&our_eid, b"gateway", &auth_key, None, get_request(&oid, &our_eid), true);
    assert_eq!(respond_v3(&request, &state, &OidValues::new(), 0, &vec![0; 8]), None);
}

#[test]
fn unknown_user_and_other_engine_are_dropped() {
    let our_eid = vec![0x80, 0x00, 0x86, 0x9F, 5, 6, 6, 6, 6, 1, 2, 3, 4];
    let state = agent(&our_eid);
    let oid = vec![1, 3, 6, 1, 4, 1, 1718, 4, 1, 3, 3, 1, 7];
    let auth_key = derive_localized_key(b"authpass1234", &our_eid);
    let stranger = make_request(&our_eid, b"mallory", &auth_key, None, get_request(&oid, &our_eid), false);
    assert_eq!(respond_v3(&stranger, &state, &OidValues::new(), 0, &vec![0; 8]), None);
    let other_eid = vec![0x80, 0x00, 0x86, 0x9F, 5, 1, 1, 1, 1, 1, 1, 1, 1];
    let elsewhere = make_request(&other_eid, b"gateway", &auth_key, None, get_request(&oid, &other_eid), false);
    assert_eq!(respond_v3(&elsewhere, &state, &OidValues::new(), 0, &vec![0; 8]), None);
}

#[test]
fn non_utf8_user_name_is_looked_up_as_the_empty_name() {
    let our_eid = vec![0x80, 0x00, 0x86, 0x9F, 5, 2, 2, 2, 2, 1, 2, 3, 4];
    let mut state = AgentState::new(our_eid.clone());
    state.register_user("", b"authpass1234", b"privpass5678");
    let oid = vec![1, 3, 6, 1, 4, 1, 1718, 4, 1, 3, 3, 1, 7];
    let mut values = OidValues::new();
    values.insert(oid.clone(), 150);
    let auth_key = derive_localized_key(b"authpass1234", &our_eid);
    let request = make_request(&our_eid, &[0xFF, 0xFE], &auth_key, None, get_request(&oid, &our_eid), false);
    let reply = respond_v3(&request, &state, &values, 0, &vec![0; 8]).expect("reply");
    assert!(reply_tag_is_valid(&reply, &auth_key));
}

#[test]
fn encrypted_pdu_without_priv_flag_is_dropped() {
    let our_eid = vec![0x80, 0x00, 0x86, 0x9F, 5, 4, 4, 4, 4, 1, 2, 3, 4];
    let state = agent(&our_eid);
    let oid = vec![1, 3, 6, 1, 4, 1, 1718, 4, 1, 3, 3, 1, 7];
    let auth_key = derive_localized_key(b"authpass1234", &our_eid);
    let priv_key = derive_localized_key(b"privpass5678", &our_eid);
    let request = make_request_with_flags(
        &our_eid,
        b"gateway",
        &auth_key,
        Some(&priv_key[..PRIV_KEY_LEN]),
        get_request(&oid, &our_eid),
        false,
        Some(0x01),
    );
    assert_eq!(respond_v3(&request, &state, &OidValues::new(), 0, &vec![0; 8]), None);
}

#[test]
fn garbage_datagram_is_dropped() {
    let state = AgentState::new(vec![1, 2, 3]);
    assert_eq!(respond_v3(&[0x30, 0x03, 0x02, 0x01, 0x03], &state, &OidValues::new(), 0, &vec![0; 8]), None);
}

#[test]
fn register_user_derives_both_keys() {
    let eid = vec![0x80, 0x00, 0x86, 0x9F, 5, 1, 2, 3, 4, 5, 6, 7, 8];
    let state = agent(&eid);
    let user = state.users.get(b"gateway").expect("registered");
    assert_eq!(user.auth_key, derive_localized_key(b"authpass1234", &eid));
    assert_eq!(user.priv_key, derive_localized_key(b"privpass5678", &eid)[..PRIV_KEY_LEN].to_vec());
    assert!(state.users.get(b"other").is_none());
    assert_eq!(state.engine_boots, 1);
}

#[test]
fn engine_time_saturates() {
    assert_eq!(engine_time_from_secs(12), 12);
    assert_eq!(engine_time_from_secs(u64::from(u32::MAX)), u32::MAX);
    assert_eq!(engine_time_from_secs(u64::from(u32::MAX) + 5), u32::MAX);
    let state = AgentState::new(vec![1]);
    assert!(state.engine_time() < 5);
}

#[test]
fn discovery_echoes_a_message_id_beyond_64_bits() {
    let huge = Integer::from(1_i128 << 80);
    let state = AgentState::new(vec![0x80, 0x00, 0x86, 0x9F, 5, 3, 3, 3, 3]);
    let reply_bytes = respond_v3(&make_discovery_request_with_id(huge.clone()), &state, &OidValues::new(), 9, &vec![0; 8])
        .expect("reply");
    let reply: Message = rasn::ber::decode(&reply_bytes).expect("decode reply");
    assert_eq!(reply.global_data.message_id, huge);
}

#[test]
fn register_user_leaves_the_boot_clock() {
    let mut state = AgentState::new(vec![1, 2, 3]);
    let before = state.boot_instant;
    state.register_user("gateway", b"a", b"b");
    assert_eq!(state.boot_instant, before);
}

#[test]
fn reply_naming_an_oid_beyond_ber_packing_is_dropped() {
    let our_eid = vec![0x80, 0x00, 0x86, 0x9F, 5, 7, 7, 7, 7, 1, 2, 3, 4];
    let state = agent(&our_eid);
    let mut values = OidValues::new();
    values.insert(vec![2, u32::MAX], 1);
    let auth_key = derive_localized_key(b"authpass1234", &our_eid);
    let scoped = ScopedPdu {
        engine_id: OctetString::from(our_eid.clone()),
        name: OctetString::from_static(&[]),
        data: Pdus::GetNextRequest(rasn_snmp::v2::GetNextRequest(Pdu {
            request_id: 7777,
            error_status: 0,
            error_index: 0,
            variable_bindings: vec![VarBind {
                name: ObjectIdentifier::new(vec![1, 3]).expect("oid"),
                value: VarBindValue::Unspecified,
            }],
        })),
    };
    let request = make_request(&our_eid, b"gateway", &auth_key, None, scoped, false);

    assert!(respond_v3(&request, &state, &values, 5, &vec![1; 8]).is_none());
}
