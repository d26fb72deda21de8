use industrial_fixtures::snmp::agent::{handle_datagram, peek_snmp_version, V2cError};
use industrial_fixtures::snmp::control::{put_oids, PutOidsStatus, SetOids};
use industrial_fixtures::snmp::oid::{
    initial_values, oid_input_current, oid_less, parse_oid, OID_INPUT_CURRENT,
};
use industrial_fixtures::snmp::simulator::Simulator;
use industrial_fixtures::snmp::store::{OidSet, OidValues};
use industrial_fixtures::snmp::usm::{
    aes_cfb_decrypt, aes_cfb_encrypt, build_iv, derive_localized_key, hmac_sign,
};
use rasn::types::{Integer, ObjectIdentifier, OctetString};
use rasn_smi::v2::ObjectSyntax;
use rasn_snmp::v2::{GetNextRequest, GetRequest, Pdu, Pdus, SetRequest, VarBind, VarBindValue};

fn values_with(entries: &[(Vec<u32>, i64)]) -> OidValues {
    let mut v = OidValues::new();
    for (oid, value) in entries {
        v.insert(oid.clone(), *value);
    }
    v
}

fn driven_with(oids: &[Vec<u32>]) -> OidSet {
    let mut d = OidSet::new();
    for oid in oids {
        d.insert(oid.clone());
    }
    d
}

#[test]
fn tick_advances_undriven_oid() {
    let mut values = values_with(&[(OID_INPUT_CURRENT.to_vec(), 100)]);
    let sim = Simulator::new();

    sim.tick(&mut values, &OidSet::new());

    assert_eq!(values.get(&OID_INPUT_CURRENT.to_vec()), Some(105));
}

#[test]
fn tick_skips_control_driven_oid() {
    let mut values = values_with(&[(OID_INPUT_CURRENT.to_vec(), 42)]);
    let driven = driven_with(&[OID_INPUT_CURRENT.to_vec()]);
    let sim = Simulator::new();

    sim.tick(&mut values, &driven);

    assert_eq!(values.get(&OID_INPUT_CURRENT.to_vec()), Some(42));
}

#[test]
fn tick_wraps_to_min_past_max() {
    let mut values = values_with(&[(oid_input_current(), 198)]);
    Simulator::new().tick(&mut values, &OidSet::new());
    assert_eq!(values.get(&oid_input_current()), Some(100));
}

#[test]
fn tick_starts_a_missing_oid_from_min() {
    let mut values = OidValues::new();
    Simulator::new().tick(&mut values, &OidSet::new());
    assert_eq!(values.get(&oid_input_current()), Some(105));
}

#[test]
fn input_current_oid_components() {
    assert_eq!(oid_input_current(), OID_INPUT_CURRENT.to_vec());
}

#[test]
fn initial_values_hold_input_current_at_100() {
    let v = initial_values();
    assert_eq!(v.len(), 1);
    assert_eq!(v.get(&vec![1, 3, 6, 1, 4, 1, 1718, 4, 1, 3, 3, 1, 7]), Some(100));
}

#[test]
fn put_oids_applies_batch_and_marks_driven() {
    let mut values = OidValues::new();
    let mut driven = OidSet::new();
    let batch = SetOids { values: vec![("1.3.6.1.4.1.1718.4.1.3.3.1.7".to_string(), 32)] };

    let status = put_oids(&mut values, &mut driven, &batch);

    assert_eq!(status, PutOidsStatus::Applied);
    assert_eq!(values.get(&OID_INPUT_CURRENT.to_vec()), Some(32));
    assert!(driven.contains(&OID_INPUT_CURRENT.to_vec()));
}

#[test]
fn malformed_oid_rejects_whole_batch() {
    let mut values = OidValues::new();
    let mut driven = OidSet::new();
    let batch = SetOids {
        values: vec![
            ("1.3.6.1.4.1.1718.4.1.3.3.1.7".to_string(), 32),
            ("not.an.oid".to_string(), 1),
        ],
    };

    let status = put_oids(&mut values, &mut driven, &batch);

    assert_eq!(status, PutOidsStatus::Rejected);
    assert!(values.is_empty());
    assert!(driven.is_empty());
}

#[test]
fn parse_oid_reads_dotted_components() {
    assert_eq!(parse_oid("1.3.6.1.4.1.1718.4.1.3.3.1.7"), Some(oid_input_current()));
    assert_eq!(parse_oid("7"), Some(vec![7]));
    assert_eq!(parse_oid("+1.02"), Some(vec![1, 2]));
    assert_eq!(parse_oid("4294967295"), Some(vec![u32::MAX]));
}

#[test]
fn parse_oid_rejects_bad_pieces() {
    assert_eq!(parse_oid(""), None);
    assert_eq!(parse_oid("1..3"), None);
    assert_eq!(parse_oid("1.3."), None);
    assert_eq!(parse_oid("1.-3"), None);
    assert_eq!(parse_oid("1.+"), None);
    assert_eq!(parse_oid("4294967296"), None);
    assert_eq!(parse_oid("1.3a"), None);
    assert_eq!(parse_oid("1.٣"), None);
}

#[test]
fn oid_order_is_lexicographic_with_prefixes_first() {
    assert!(oid_less(&vec![1, 3], &vec![1, 3, 0]));
    assert!(oid_less(&vec![1, 3, 6], &vec![1, 4]));
    assert!(!oid_less(&vec![1, 4], &vec![1, 3, 6]));
    assert!(!oid_less(&vec![1, 3], &vec![1, 3]));
}

#[test]
fn next_after_finds_least_following_oid() {
    let values = values_with(&[(vec![1, 3, 9], 9), (vec![1, 3, 6, 1], 61), (vec![1, 4], 4)]);
    assert_eq!(values.next_after(&vec![1, 3]), Some((vec![1, 3, 6, 1], 61)));
    assert_eq!(values.next_after(&vec![1, 3, 6, 1]), Some((vec![1, 3, 9], 9)));
    assert_eq!(values.next_after(&vec![1, 4]), None);
}

#[test]
fn store_insert_replaces_and_reads_back() {
    let mut values = values_with(&[(vec![1, 3], 1)]);
    values.insert(vec![1, 3], 2);
    assert_eq!(values.get(&vec![1, 3]), Some(2));
    assert_eq!(values.len(), 1);
}

fn v2c_request(pdu: Pdus) -> Vec<u8> {
    let msg = rasn_snmp::v2c::Message {
        version: Integer::from(1),
        community: OctetString::from_static(b"public"),
        data: pdu,
    };
    rasn::ber::encode(&msg).unwrap()
}

fn request_pdu(oids: &[Vec<u32>]) -> Pdu {
    Pdu {
        request_id: 4242,
        error_status: 0,
        error_index: 0,
        variable_bindings: oids
            .iter()
            .map(|o| VarBind { name: ObjectIdentifier::new(o.clone()).unwrap(), value: VarBindValue::Unspecified })
            .collect(),
    }
}

fn decode_response(bytes: &[u8]) -> (Vec<u8>, Pdu) {
    let msg: rasn_snmp::v2c::Message<Pdus> = rasn::ber::decode(bytes).unwrap();
    match msg.data {
        Pdus::Response(r) => (msg.community.to_vec(), r.0),
        other => panic!("expected Response, got {other:?}"),
    }
}

fn integer_value(vb: &VarBind) -> String {
    match &vb.value {
        VarBindValue::Value(ObjectSyntax::Simple(s)) => format!("{s:?}"),
        other => panic!("unexpected value {other:?}"),
    }
}

#[test]
fn v2c_get_returns_value_and_no_such_instance() {
    let values = initial_values();
    let request = v2c_request(Pdus::GetRequest(GetRequest(request_pdu(&[
        oid_input_current(),
        vec![1, 3, 6, 1, 2, 1, 1, 5, 0],
    ]))));

    let reply = handle_datagram(&request, &values).unwrap();

    let (community, pdu) = decode_response(&reply);
    assert_eq!(community, b"public".to_vec());
    assert_eq!(pdu.request_id, 4242);
    assert_eq!(pdu.variable_bindings.len(), 2);
    let first: Vec<u32> = pdu.variable_bindings[0].name.iter().copied().collect();
    assert_eq!(first, oid_input_current());
    assert!(integer_value(&pdu.variable_bindings[0]).contains("100"));
    assert!(matches!(pdu.variable_bindings[1].value, VarBindValue::NoSuchInstance));
}

#[test]
fn v2c_get_next_walks_to_successor_then_end_of_mib() {
    let values = initial_values();
    let request = v2c_request(Pdus::GetNextRequest(GetNextRequest(request_pdu(&[
        vec![1, 3, 6, 1, 4, 1],
        oid_input_current(),
    ]))));

    let reply = handle_datagram(&request, &values).unwrap();

    let (_, pdu) = decode_response(&reply);
    let next: Vec<u32> = pdu.variable_bindings[0].name.iter().copied().collect();
    assert_eq!(next, oid_input_current());
    assert!(integer_value(&pdu.variable_bindings[0]).contains("100"));
    let last: Vec<u32> = pdu.variable_bindings[1].name.iter().copied().collect();
    assert_eq!(last, oid_input_current());
    assert!(matches!(pdu.variable_bindings[1].value, VarBindValue::EndOfMibView));
}

#[test]
fn v2c_rejects_set_and_garbage() {
    let values = initial_values();
    let set = v2c_request(Pdus::SetRequest(SetRequest(request_pdu(&[oid_input_current()]))));
    assert_eq!(handle_datagram(&set, &values), Err(V2cError::UnsupportedPdu));
    assert_eq!(handle_datagram(&[0x30, 0x01, 0xFF], &values), Err(V2cError::Decode));
}

#[test]
fn v2c_unencodable_oid_gets_no_reply() {
    let mut values = OidValues::new();
    values.insert(vec![5, 1], 1);
    let request = v2c_request(Pdus::GetNextRequest(GetNextRequest(request_pdu(&[vec![1, 3]]))));
    assert_eq!(handle_datagram(&request, &values), Err(V2cError::Encode));
}

#[test]
fn peek_reads_version_byte() {
    let v2c = v2c_request(Pdus::GetRequest(GetRequest(request_pdu(&[oid_input_current()]))));
    assert_eq!(peek_snmp_version(&v2c), Some(1));
    assert_eq!(peek_snmp_version(&[0x30, 0x81, 0x10, 0x02, 0x01, 0x03]), Some(3));
    assert_eq!(peek_snmp_version(&[0x30, 0x05, 0x02, 0x01]), None);
    assert_eq!(peek_snmp_version(&[0x31, 0x05, 0x02, 0x01, 0x03]), None);
    assert_eq!(peek_snmp_version(&[0x30, 0x05, 0x04, 0x01, 0x03]), None);
    assert_eq!(peek_snmp_version(&[]), None);
}

#[test]
fn derive_key_is_deterministic_and_engine_id_localized() {
    let pw = b"mypassphrase1234";
    let eid_a = [0x80_u8, 0x00, 0x86, 0x05, 5, 1, 2, 3, 4, 5, 6, 7, 8];
    let eid_b = [0x80_u8, 0x00, 0x86, 0x05, 5, 9, 9, 9, 9, 9, 9, 9, 9];
    let key_a1 = derive_localized_key(pw, &eid_a);
    let key_a2 = derive_localized_key(pw, &eid_a);
    let key_b = derive_localized_key(pw, &eid_b);
    assert_eq!(key_a1, key_a2);
    assert_ne!(key_a1, key_b);
    assert_eq!(key_a1.len(), 32, "SHA-256 digest length");
}

#[test]
fn derive_key_matches_published_sha256_vector() {
    // "maplesyrup" localized to engine id 000000000000000000000002 with SHA-256.
    let eid = [0u8, 0, 0, 0, 0, 0, 0, 0, 0, 0, 0, 2];
    let key = derive_localized_key(b"maplesyrup", &eid);
    let expected: [u8; 32] = [
        0x89, 0x82, 0xe0, 0xe5, 0x49, 0xe8, 0x66, 0xdb, 0x36, 0x1a, 0x6b, 0x62, 0x5d, 0x84, 0xcc,
        0xcc, 0x11, 0x16, 0x2d, 0x45, 0x3e, 0xe8, 0xce, 0x3a, 0x64, 0x45, 0xc2, 0xd6, 0x77, 0x6f,
        0x0f, 0x8b,
    ];
    assert_eq!(key, expected.to_vec());
}

#[test]
fn aes_cfb_round_trip() {
    let key = [0xAA_u8; 16];
    let pt = b"the scoped pdu would go here, 32B";
    let (ct, salt) = aes_cfb_encrypt(pt, &key, 1, 12_345);
    let recovered = aes_cfb_decrypt(&ct, &key, 1, 12_345, &salt);
    assert_eq!(recovered, pt);
}

#[test]
fn aes_cfb_encrypt_changes_the_bytes() {
    let key = [0x11_u8; 16];
    let pt = b"0123456789abcdef0123";
    let (ct, salt) = aes_cfb_encrypt(pt, &key, 7, 8);
    assert_eq!(ct.len(), pt.len());
    assert_eq!(salt.len(), 8);
    assert_ne!(ct, pt.to_vec());
}

#[test]
fn build_iv_lays_out_boots_time_and_salt() {
    let iv = build_iv(0x01020304, 0x0A0B0C0D, &[9, 8, 7, 6, 5, 4, 3, 2, 1]);
    assert_eq!(iv, vec![1, 2, 3, 4, 0x0A, 0x0B, 0x0C, 0x0D, 9, 8, 7, 6, 5, 4, 3, 2]);
}

#[test]
fn hmac_sign_truncates_to_16_bytes() {
    let tag = hmac_sign(b"key", b"The quick brown fox jumps over the lazy dog");
    // HMAC-SHA-256("key", ...) = f7bc83f430538424b13298e6aa6fb143...
    assert_eq!(tag, vec![0xf7, 0xbc, 0x83, 0xf4, 0x30, 0x53, 0x84, 0x24, 0xb1, 0x32, 0x98, 0xe6, 0xaa, 0x6f, 0xb1, 0x43]);
}

#[test]
fn written_value_is_served_and_survives_ticks() {
    let mut values = initial_values();
    let mut driven = OidSet::new();
    let batch = SetOids { values: vec![("1.3.6.1.4.1.1718.4.1.3.3.1.7".to_string(), 32)] };
    assert_eq!(put_oids(&mut values, &mut driven, &batch), PutOidsStatus::Applied);

    let sim = Simulator::new();
    for _ in 0..10 {
        sim.tick(&mut values, &driven);
    }

    let request = v2c_request(Pdus::GetRequest(GetRequest(request_pdu(&[oid_input_current()]))));
    let (_, pdu) = decode_response(&handle_datagram(&request, &values).unwrap());
    assert!(integer_value(&pdu.variable_bindings[0]).contains("32"));
}

#[test]
fn values_are_served_as_truncated_32_bit_integers() {
    let mut values = OidValues::new();
    values.insert(vec![1, 3, 6, 1], (1_i64 << 32) + 7);
    let request = v2c_request(Pdus::GetRequest(GetRequest(request_pdu(&[vec![1, 3, 6, 1]]))));
    let (_, pdu) = decode_response(&handle_datagram(&request, &values).unwrap());
    assert!(integer_value(&pdu.variable_bindings[0]).contains('7'));
}

#[test]
fn v2c_version_beyond_64_bits_is_echoed() {
    let huge = Integer::from(1_i128 << 70);
    let msg = rasn_snmp::v2c::Message {
        version: huge.clone(),
        community: OctetString::from_static(b"public"),
        data: Pdus::GetRequest(GetRequest(request_pdu(&[oid_input_current()]))),
    };
    let request = rasn::ber::encode(&msg).unwrap();
    let reply = handle_datagram(&request, &initial_values()).unwrap();
    let decoded: rasn_snmp::v2c::Message<Pdus> = rasn::ber::decode(&reply).unwrap();
    assert_eq!(decoded.version, huge);
}

#[test]
fn v2c_oid_whose_first_arcs_overflow_gets_encode_error() {
    let mut values = OidValues::new();
    values.insert(vec![2, u32::MAX], 1);
    let request = v2c_request(Pdus::GetNextRequest(GetNextRequest(request_pdu(&[vec![1, 3]]))));
    assert_eq!(handle_datagram(&request, &values), Err(V2cError::Encode));
}

#[test]
fn v2c_oid_at_the_packing_limit_is_served() {
    let mut values = OidValues::new();
    values.insert(vec![2, u32::MAX - 80], 9);
    let request = v2c_request(Pdus::GetNextRequest(GetNextRequest(request_pdu(&[vec![1, 3]]))));
    let reply = handle_datagram(&request, &values).unwrap();
    let (_, pdu) = decode_response(&reply);
    let name: Vec<u32> = pdu.variable_bindings[0].name.iter().copied().collect();
    assert_eq!(name, vec![2, u32::MAX - 80]);
    assert!(integer_value(&pdu.variable_bindings[0]).contains('9'));
}
