//! SNMPv3 USM message handling: engine discovery (RFC 3414 4) and the
//! authenticated request flow (RFC 3414 3.2), with HMAC-SHA-256-128
//! authentication and AES-128 CFB privacy.

use crate::snmp::ber::{
    bytes_view, decode_pdus, decode_scoped, decode_usm, decode_v3, encode_pdus, encode_scoped,
    encode_usm, encode_v3, reply_pdu_bytes, request_pdu_of, scoped_pdu_bytes, scoped_pdu_of,
    usm_params_bytes, usm_params_of, v3_message_bytes, v3_message_of, ScopedData, ScopedDataView,
    ScopedPduParts, ScopedPduView, UsmParams, UsmParamsView, V3Message, V3MessageView,
    integer_u32, integer_u32_of, u32_integer, u32_integer_bytes,
};
use crate::snmp::pdu::{
    answers, bindings_fit_ber, response_fits_ber, build_response, PduKind, ReplyKind, ResponsePdu, ResponsePduView, VarBindOut, VarValue,
};
use crate::snmp::store::OidValues;
use crate::snmp::usm::{
    aes128_cfb_decrypt_of, aes128_cfb_encrypt_of, aes_cfb_decrypt, cfb_round_trips, aes_cfb_encrypt_with_salt,
    derive_localized_key, hmac_sha256_of, hmac_sign, iv_spec, localized_key, prefix, random_salt,
    AUTH_TRUNC_LEN, PRIV_KEY_LEN,
};
use std::time::{Duration, Instant};
use vstd::prelude::*;
use vstd::string::StringSliceAdditionalSpecFns;
use vstd::utf8::valid_utf8;

verus! {

#[verifier::external_type_specification]
#[verifier::external_body]
pub struct ExInstant(Instant);

/// `Instant::now`: the current instant. Nothing is promised of it.
#[verifier::external_body]
fn instant_now() -> Instant {
    Instant::now()
}

/// `Instant::elapsed`: the time since `i`. Nothing is promised of it.
#[verifier::external_body]
fn elapsed_since(i: &Instant) -> Duration {
    i.elapsed()
}

/// `Duration::as_secs`: whole seconds of `d`. Nothing is promised of it.
#[verifier::external_body]
fn whole_seconds(d: &Duration) -> u64 {
    d.as_secs()
}

/// `std::str::from_utf8(..).is_ok()`: whether the bytes are valid UTF-8.
#[verifier::external_body]
fn is_utf8(bytes: &[u8]) -> (r: bool)
    ensures
        r == valid_utf8(bytes@),
{
    std::str::from_utf8(bytes).is_ok()
}

/// usmStatsUnknownEngineIDs.0 (RFC 3414 5), the OID a discovery report
/// carries.
pub open spec fn usm_stats_unknown_engine_ids() -> Seq<u32> {
    seq![1u32, 3, 6, 1, 6, 3, 15, 1, 1, 4, 0]
}

fn usm_stats_unknown_engine_ids_oid() -> (oid: Vec<u32>)
    ensures
        oid@ == usm_stats_unknown_engine_ids(),
{
    let oid: Vec<u32> = vec![1, 3, 6, 1, 6, 3, 15, 1, 1, 4, 0];
    proof {
        assert(oid@ =~= usm_stats_unknown_engine_ids());
    }
    oid
}

/// One registered USM user: keys derived from the passphrases.
pub struct UsmUser {
    /// SHA-256 localized authentication key.
    pub auth_key: Vec<u8>,
    /// AES-128 privacy key (leading bytes of the localized privacy key).
    pub priv_key: Vec<u8>,
}

/// Registered users by security name (the name's bytes). A later entry
/// for a name replaces an earlier one.
pub struct UserTable {
    entries: Vec<(Vec<u8>, UsmUser)>,
}

/// The users of a sequence of entries, later entries winning.
pub open spec fn user_map(entries: Seq<(Vec<u8>, UsmUser)>) -> Map<Seq<u8>, (Seq<u8>, Seq<u8>)>
    decreases entries.len(),
{
    if entries.len() == 0 {
        Map::empty()
    } else {
        user_map(entries.drop_last()).insert(
            entries.last().0@,
            (entries.last().1.auth_key@, entries.last().1.priv_key@),
        )
    }
}

impl UserTable {
    /// The users, as a map from name bytes to (auth key, priv key).
    pub closed spec fn view(&self) -> Map<Seq<u8>, (Seq<u8>, Seq<u8>)> {
        user_map(self.entries@)
    }

    /// No users.
    pub fn new() -> (t: Self)
        ensures
            t.view() == Map::<Seq<u8>, (Seq<u8>, Seq<u8>)>::empty(),
    {
        UserTable { entries: Vec::new() }
    }

    /// Register `user` under `name`, replacing any earlier user of that
    /// name.
    pub fn insert(&mut self, name: Vec<u8>, user: UsmUser)
        ensures
            final(self).view() == old(self).view().insert(name@, (user.auth_key@, user.priv_key@)),
    {
        self.entries.push((name, user));
        proof {
            assert(self.entries@.drop_last() =~= old(self).entries@);
        }
    }

    /// The user registered under `name`.
    pub fn get(&self, name: &[u8]) -> (r: Option<&UsmUser>)
        ensures
            r matches Some(u) ==> self.view().contains_key(name@) && self.view()[name@] == (
                u.auth_key@,
                u.priv_key@,
            ),
            r is None ==> !self.view().contains_key(name@),
    {
        let mut i: usize = self.entries.len();
        proof {
            assert(self.entries@.take(i as int) =~= self.entries@);
        }
        while i > 0
            invariant
                i <= self.entries@.len(),
                self.view().contains_key(name@) == user_map(self.entries@.take(i as int)).contains_key(
                    name@,
                ),
                self.view()[name@] == user_map(self.entries@.take(i as int))[name@],
            decreases i,
        {
            proof {
                assert(self.entries@.take(i as int).drop_last() =~= self.entries@.take(i - 1));
            }
            if bytes_equal(self.entries[i - 1].0.as_slice(), name) {
                return Some(&self.entries[i - 1].1);
            }
            i = i - 1;
        }
        None
    }
}

/// Whether two byte strings are equal.
pub fn bytes_equal(a: &[u8], b: &[u8]) -> (r: bool)
    ensures
        r == (a@ == b@),
{
    if a.len() != b.len() {
        return false;
    }
    let mut i: usize = 0;
    while i < a.len()
        invariant
            i <= a@.len(),
            a@.len() == b@.len(),
            forall|j: int| 0 <= j < i ==> a@[j] == b@[j],
        decreases a@.len() - i,
    {
        if a[i] != b[i] {
            return false;
        }
        i = i + 1;
    }
    proof {
        assert(a@ =~= b@);
    }
    true
}

/// Agent-side authoritative state (RFC 3411).
pub struct AgentState {
    /// Our authoritative engine id.
    pub engine_id: Vec<u8>,
    /// Boots counter.
    pub engine_boots: u32,
    /// Wall-clock anchor for the engine time (seconds since this boot).
    pub boot_instant: Instant,
    /// Registered USM users.
    pub users: UserTable,
}

/// The engine time reported for `secs` seconds since boot: saturating at
/// `u32::MAX`.
pub open spec fn engine_time_spec(secs: u64) -> u32 {
    if secs <= u32::MAX {
        secs as u32
    } else {
        u32::MAX
    }
}

/// Engine time for `secs` seconds since boot, saturating at `u32::MAX`.
pub fn engine_time_from_secs(secs: u64) -> (t: u32)
    ensures
        t == engine_time_spec(secs),
{
    if secs <= 0xFFFF_FFFF {
        secs as u32
    } else {
        0xFFFF_FFFF
    }
}

impl AgentState {
    /// A state with the given engine id, boots counter 1, the boot clock
    /// started now, and no users.
    pub fn new(engine_id: Vec<u8>) -> (s: Self)
        ensures
            s.engine_id@ == engine_id@,
            s.engine_boots == 1,
            s.users.view() == Map::<Seq<u8>, (Seq<u8>, Seq<u8>)>::empty(),
    {
        AgentState { engine_id, engine_boots: 1, boot_instant: instant_now(), users: UserTable::new() }
    }

    /// Register a user, deriving both keys from the passphrases localized
    /// to our engine id; the privacy key keeps the leading 16 bytes.
    pub fn register_user(&mut self, security_name: &str, auth_pass: &[u8], priv_pass: &[u8])
        requires
            auth_pass@.len() > 0,
            priv_pass@.len() > 0,
        ensures
            final(self).users.view() == old(self).users.view().insert(
                security_name.spec_bytes(),
                (
                    localized_key(auth_pass@, old(self).engine_id@),
                    localized_key(priv_pass@, old(self).engine_id@).take(PRIV_KEY_LEN as int),
                ),
            ),
            final(self).engine_id == old(self).engine_id,
            final(self).engine_boots == old(self).engine_boots,
            final(self).boot_instant == old(self).boot_instant,
    {
        let auth_key = derive_localized_key(auth_pass, self.engine_id.as_slice());
        let priv_full = derive_localized_key(priv_pass, self.engine_id.as_slice());
        let priv_key = prefix(priv_full.as_slice(), PRIV_KEY_LEN);
        let name = prefix(security_name.as_bytes(), security_name.as_bytes().len());
        proof {
            assert(security_name.spec_bytes().take(security_name.spec_bytes().len() as int)
                =~= security_name.spec_bytes());
        }
        self.users.insert(name, UsmUser { auth_key, priv_key });
    }

    /// Seconds since this agent booted, saturating at `u32::MAX`: the
    /// value reported as the authoritative engine time.
    pub fn engine_time(&self) -> (t: u32)
        ensures
            exists|secs: u64| t == engine_time_spec(secs),
    {
        let d = elapsed_since(&self.boot_instant);
        engine_time_from_secs(whole_seconds(&d))
    }
}

/// `n` zero bytes.
pub open spec fn zeros(n: nat) -> Seq<u8> {
    Seq::new(n, |i: int| 0u8)
}

/// The 32-bit reading of an engine boots or time INTEGER (given as BER):
/// its value when that lies in `0..=u32::MAX`, else 0.
pub open spec fn u32_or_zero(ber: Seq<u8>) -> u32 {
    match integer_u32_of(ber) {
        Some(v) => v,
        None => 0,
    }
}

/// The BER INTEGERs of engine boots and engine time.
pub open spec fn boots_time_bytes(boots: u32, time: u32) -> Option<(Seq<u8>, Seq<u8>)> {
    match (u32_integer_bytes(boots), u32_integer_bytes(time)) {
        (Some(b), Some(t)) => Some((b, t)),
        _ => None,
    }
}

/// The first byte of the message flags, or 0 when there is none.
pub open spec fn flags_byte(flags: Seq<u8>) -> u8 {
    if flags.len() > 0 {
        flags[0]
    } else {
        0
    }
}

/// Whether the authFlag (0x01) is set.
pub open spec fn auth_flag(flags: u8) -> bool {
    flags % 2 == 1
}

/// Whether the privFlag (0x02) is set.
pub open spec fn priv_flag(flags: u8) -> bool {
    (flags / 2) % 2 == 1
}

/// The name under which a user is looked up: the user name when it is
/// valid UTF-8, else the empty name.
pub open spec fn lookup_name(user_name: Seq<u8>) -> Seq<u8> {
    if valid_utf8(user_name) {
        user_name
    } else {
        Seq::empty()
    }
}

/// The request id of a plaintext Get, GetNext or GetBulk scoped PDU.
pub open spec fn request_id_spec(m: V3MessageView) -> Option<i32> {
    match m.scoped {
        ScopedDataView::Cleartext(b) => match scoped_pdu_of(b) {
            Some(s) => match request_pdu_of(s.data) {
                Some(p) => if p.kind == PduKind::Get || p.kind == PduKind::GetNext || p.kind
                    == PduKind::GetBulk {
                    Some(p.request_id)
                } else {
                    None
                },
                None => None,
            },
            None => None,
        },
        ScopedDataView::Encrypted(_) => None,
    }
}

/// The reply message to `m` with the given flags, security parameters and
/// scoped PDU: version, message id and max size are the request's, the
/// security model is the request's (USM: replies are only built for
/// requests whose security model is 3).
pub open spec fn reply_message(
    m: V3MessageView,
    flags: u8,
    security_parameters: Seq<u8>,
    scoped: ScopedDataView,
) -> V3MessageView {
    V3MessageView {
        version: m.version,
        message_id: m.message_id,
        max_size: m.max_size,
        flags: seq![flags],
        security_model: m.security_model,
        security_parameters,
        scoped,
    }
}

/// The discovery REPORT (noAuthNoPriv, reportable): one binding,
/// usmStatsUnknownEngineIDs.0 = 1, carrying our engine id, boots and time
/// and the request's user name and request id (0 when it has none).
pub open spec fn discovery_report_spec(
    m: V3MessageView,
    usm: UsmParamsView,
    engine_id: Seq<u8>,
    boots: u32,
    time: u32,
) -> Option<Seq<u8>> {
    let request_id = match request_id_spec(m) {
        Some(r) => r,
        None => 0,
    };
    let report = ResponsePduView {
        request_id,
        error_status: 0,
        error_index: 0,
        bindings: seq![(usm_stats_unknown_engine_ids(), VarValue::Integer(1))],
    };
    match reply_pdu_bytes(ReplyKind::Report, report) {
        None => None,
        Some(data) => match scoped_pdu_bytes(
            ScopedPduView { engine_id, name: Seq::empty(), data },
        ) {
            None => None,
            Some(scoped) => match boots_time_bytes(boots, time) {
                None => None,
                Some(bt) => match usm_params_bytes(
                    UsmParamsView {
                        engine_id,
                        engine_boots: bt.0,
                        engine_time: bt.1,
                        user_name: usm.user_name,
                        auth_params: Seq::empty(),
                        priv_params: Seq::empty(),
                    },
                ) {
                    None => None,
                    Some(sp) => v3_message_bytes(
                        reply_message(m, 0x04, sp, ScopedDataView::Cleartext(scoped)),
                    ),
                },
            },
        },
    }
}

/// Whether the request's authentication parameters are the HMAC tag of
/// the request re-encoded with zeroed authentication parameters.
pub open spec fn hmac_ok_spec(m: V3MessageView, usm: UsmParamsView, auth_key: Seq<u8>) -> bool {
    usm.auth_params.len() == AUTH_TRUNC_LEN && match usm_params_bytes(
        UsmParamsView { auth_params: zeros(AUTH_TRUNC_LEN as nat), ..usm },
    ) {
        None => false,
        Some(sp) => match v3_message_bytes(
            V3MessageView { security_parameters: sp, ..m },
        ) {
            None => false,
            Some(b) => hmac_sha256_of(auth_key, b).take(AUTH_TRUNC_LEN as int) == usm.auth_params,
        },
    }
}

/// The request's scoped PDU: the plaintext one, or the encrypted one
/// decrypted when the privFlag is set.
pub open spec fn request_scoped_spec(
    m: V3MessageView,
    usm: UsmParamsView,
    priv_key: Seq<u8>,
    want_priv: bool,
) -> Option<ScopedPduView> {
    match m.scoped {
        ScopedDataView::Cleartext(b) => scoped_pdu_of(b),
        ScopedDataView::Encrypted(ct) => if !want_priv || priv_key.len() < PRIV_KEY_LEN
            || usm.priv_params.len() < 8 {
            None
        } else {
            scoped_pdu_of(
                aes128_cfb_decrypt_of(
                    priv_key.take(PRIV_KEY_LEN as int),
                    iv_spec(
                        u32_or_zero(usm.engine_boots),
                        u32_or_zero(usm.engine_time),
                        usm.priv_params,
                    ),
                    ct,
                ),
            )
        },
    }
}

/// The flags of an authenticated reply: authPriv (0x03) when encrypting,
/// authNoPriv (0x01) otherwise.
pub open spec fn reply_flags(encrypt: bool) -> u8 {
    if encrypt {
        0x03
    } else {
        0x01
    }
}

/// The privacy parameters of an authenticated reply: the salt when
/// encrypting, none otherwise.
pub open spec fn reply_priv_params(encrypt: bool, salt: Seq<u8>) -> Seq<u8> {
    if encrypt {
        salt
    } else {
        Seq::empty()
    }
}

/// The USM parameters of a reply: our engine id, boots and time (as BER
/// INTEGERs), the request's user name, and the given authentication and
/// privacy parameters.
pub open spec fn reply_usm_params(
    engine_id: Seq<u8>,
    boots_time: (Seq<u8>, Seq<u8>),
    user_name: Seq<u8>,
    auth_params: Seq<u8>,
    priv_params: Seq<u8>,
) -> UsmParamsView {
    UsmParamsView {
        engine_id,
        engine_boots: boots_time.0,
        engine_time: boots_time.1,
        user_name,
        auth_params,
        priv_params,
    }
}

/// The authenticated reply around a scoped PDU (given as BER): encrypted
/// under the user's privacy key with `salt` when `encrypt`, signed with
/// the user's authentication key over the message with zeroed
/// authentication parameters.
pub open spec fn authenticated_reply_spec(
    m: V3MessageView,
    usm: UsmParamsView,
    auth_key: Seq<u8>,
    priv_key: Seq<u8>,
    engine_id: Seq<u8>,
    boots: u32,
    time: u32,
    scoped: Seq<u8>,
    encrypt: bool,
    salt: Seq<u8>,
) -> Option<Seq<u8>> {
    if encrypt && priv_key.len() < PRIV_KEY_LEN {
        None
    } else if boots_time_bytes(boots, time) is None {
        None
    } else {
        let bt = boots_time_bytes(boots, time)->0;
        let data = if encrypt {
            ScopedDataView::Encrypted(
                aes128_cfb_encrypt_of(
                    priv_key.take(PRIV_KEY_LEN as int),
                    iv_spec(boots, time, salt),
                    scoped,
                ),
            )
        } else {
            ScopedDataView::Cleartext(scoped)
        };
        let flags = reply_flags(encrypt);
        let priv_params = reply_priv_params(encrypt, salt);
        match usm_params_bytes(
            reply_usm_params(engine_id, bt, usm.user_name, zeros(AUTH_TRUNC_LEN as nat), priv_params),
        ) {
            None => None,
            Some(sp0) => match v3_message_bytes(reply_message(m, flags, sp0, data)) {
                None => None,
                Some(unsigned) => match usm_params_bytes(
                    reply_usm_params(
                        engine_id,
                        bt,
                        usm.user_name,
                        hmac_sha256_of(auth_key, unsigned).take(AUTH_TRUNC_LEN as int),
                        priv_params,
                    ),
                ) {
                    None => None,
                    Some(sp1) => v3_message_bytes(reply_message(m, flags, sp1, data)),
                },
            },
        }
    }
}

/// The scoped PDU (as BER) that answers an authenticated request from a
/// known user: the request passes the HMAC check when the authFlag is set,
/// its scoped PDU is read (decrypted when the privFlag is set), and its Get
/// or GetNext is answered from `values` under our engine id and the
/// request's context name.
pub open spec fn response_scoped_spec(
    m: V3MessageView,
    usm: UsmParamsView,
    auth_key: Seq<u8>,
    priv_key: Seq<u8>,
    engine_id: Seq<u8>,
    values: Map<Seq<u32>, i64>,
) -> Option<Seq<u8>> {
    let flags = flags_byte(m.flags);
    if auth_flag(flags) && !hmac_ok_spec(m, usm, auth_key) {
        None
    } else {
        match request_scoped_spec(m, usm, priv_key, priv_flag(flags)) {
            None => None,
            Some(s) => match request_pdu_of(s.data) {
                None => None,
                Some(p) => if p.kind == PduKind::Get || p.kind == PduKind::GetNext {
                    let resp = ResponsePduView {
                        request_id: p.request_id,
                        error_status: 0,
                        error_index: 0,
                        bindings: answers(values, p.oids, p.kind == PduKind::GetNext),
                    };
                    if !bindings_fit_ber(resp.bindings) {
                        None
                    } else {
                        match reply_pdu_bytes(ReplyKind::Response, resp) {
                            None => None,
                            Some(data) => scoped_pdu_bytes(
                                ScopedPduView { engine_id, name: s.name, data },
                            ),
                        }
                    }
                } else {
                    None
                },
            },
        }
    }
}

/// The reply to an authenticated request from a known user: the answering
/// scoped PDU, signed, and encrypted when the request's privFlag is set.
pub open spec fn user_reply_spec(
    m: V3MessageView,
    usm: UsmParamsView,
    auth_key: Seq<u8>,
    priv_key: Seq<u8>,
    engine_id: Seq<u8>,
    boots: u32,
    values: Map<Seq<u32>, i64>,
    time: u32,
    salt: Seq<u8>,
) -> Option<Seq<u8>> {
    match response_scoped_spec(m, usm, auth_key, priv_key, engine_id, values) {
        None => None,
        Some(scoped) => authenticated_reply_spec(
            m,
            usm,
            auth_key,
            priv_key,
            engine_id,
            boots,
            time,
            scoped,
            priv_flag(flags_byte(m.flags)),
            salt,
        ),
    }
}

/// For a request that takes the encrypted user path, the user's privacy
/// key and the answering scoped PDU.
pub open spec fn v3_encrypted_response(
    datagram: Seq<u8>,
    engine_id: Seq<u8>,
    users: Map<Seq<u8>, (Seq<u8>, Seq<u8>)>,
    values: Map<Seq<u32>, i64>,
) -> Option<(Seq<u8>, Seq<u8>)> {
    match v3_message_of(datagram) {
        None => None,
        Some(m) => match usm_params_of(m.security_parameters) {
            None => None,
            Some(usm) => if integer_u32_of(m.security_model) == Some(3u32) && usm.engine_id.len()
                > 0 && usm.engine_id == engine_id && users.contains_key(lookup_name(usm.user_name))
                && priv_flag(flags_byte(m.flags)) {
                let user = users[lookup_name(usm.user_name)];
                match response_scoped_spec(m, usm, user.0, user.1, engine_id, values) {
                    None => None,
                    Some(scoped) => Some((user.1, scoped)),
                }
            } else {
                None
            },
        },
    }
}

/// Whether the encrypted reply to `datagram`, if there is one, decrypts
/// back: under the user's privacy key, with the IV of our boots, the reply
/// time and the salt, the encryption of the answering scoped PDU decrypts
/// to that scoped PDU.
pub open spec fn v3_reply_decrypts(
    datagram: Seq<u8>,
    engine_id: Seq<u8>,
    boots: u32,
    users: Map<Seq<u8>, (Seq<u8>, Seq<u8>)>,
    values: Map<Seq<u32>, i64>,
    time: u32,
    salt: Seq<u8>,
) -> bool {
    match v3_encrypted_response(datagram, engine_id, users, values) {
        None => true,
        Some((priv_key, scoped)) => priv_key.len() >= PRIV_KEY_LEN ==> cfb_round_trips(
            priv_key.take(PRIV_KEY_LEN as int),
            iv_spec(boots, time, salt),
            scoped,
        ),
    }
}

/// The reply to a v3 datagram, given the engine time and the salt drawn
/// for it: a discovery REPORT when the request names no engine, nothing
/// when it names another engine or an unknown user, else the user's
/// authenticated reply.
pub open spec fn v3_reply_spec(
    datagram: Seq<u8>,
    engine_id: Seq<u8>,
    boots: u32,
    users: Map<Seq<u8>, (Seq<u8>, Seq<u8>)>,
    values: Map<Seq<u32>, i64>,
    time: u32,
    salt: Seq<u8>,
) -> Option<Seq<u8>> {
    match v3_message_of(datagram) {
        None => None,
        Some(m) => if integer_u32_of(m.security_model) != Some(3u32) {
            None
        } else {
            match usm_params_of(m.security_parameters) {
                None => None,
                Some(usm) => if usm.engine_id.len() == 0 {
                    discovery_report_spec(m, usm, engine_id, boots, time)
                } else if usm.engine_id != engine_id {
                    None
                } else if !users.contains_key(lookup_name(usm.user_name)) {
                    None
                } else {
                    let user = users[lookup_name(usm.user_name)];
                    user_reply_spec(m, usm, user.0, user.1, engine_id, boots, values, time, salt)
                },
            }
        },
    }
}

fn zeroes(n: usize) -> (z: Vec<u8>)
    ensures
        z@ == zeros(n as nat),
{
    let mut z: Vec<u8> = Vec::new();
    let mut i: usize = 0;
    while i < n
        invariant
            i <= n,
            z@ =~= zeros(i as nat),
        decreases n - i,
    {
        z.push(0);
        i = i + 1;
    }
    z
}

fn copy_bytes(b: &Vec<u8>) -> (r: Vec<u8>)
    ensures
        r@ == b@,
{
    prefix(b.as_slice(), b.len())
}

fn copy_scoped(d: &ScopedData) -> (r: ScopedData)
    ensures
        r.view() == d.view(),
{
    match d {
        ScopedData::Cleartext(b) => ScopedData::Cleartext(copy_bytes(b)),
        ScopedData::Encrypted(b) => ScopedData::Encrypted(copy_bytes(b)),
    }
}

fn reply_message_of(
    m: &V3Message,
    flags: u8,
    security_parameters: Vec<u8>,
    scoped: ScopedData,
) -> (r: V3Message)
    ensures
        r.view() == reply_message(m.view(), flags, security_parameters@, scoped.view()),
{
    let mut f: Vec<u8> = Vec::new();
    f.push(flags);
    proof {
        assert(f@ =~= seq![flags]);
    }
    V3Message {
        version: copy_bytes(&m.version),
        message_id: copy_bytes(&m.message_id),
        max_size: copy_bytes(&m.max_size),
        flags: f,
        security_model: copy_bytes(&m.security_model),
        security_parameters,
        scoped,
    }
}

fn boots_time(boots: u32, time: u32) -> (r: Option<(Vec<u8>, Vec<u8>)>)
    ensures
        r matches Some(bt) ==> boots_time_bytes(boots, time) == Some((bt.0@, bt.1@)),
        r is None ==> boots_time_bytes(boots, time) is None,
{
    let b = match u32_integer(boots) {
        Some(b) => b,
        None => return None,
    };
    let t = match u32_integer(time) {
        Some(t) => t,
        None => return None,
    };
    Some((b, t))
}

/// The request id of a plaintext Get, GetNext or GetBulk scoped PDU, for
/// the discovery report to echo.
fn extract_request_id(m: &V3Message) -> (r: Option<i32>)
    ensures
        r == request_id_spec(m.view()),
{
    match &m.scoped {
        ScopedData::Cleartext(b) => match decode_scoped(b.as_slice()) {
            Some(s) => match decode_pdus(s.data.as_slice()) {
                Some(p) => match p.kind {
                    PduKind::Get | PduKind::GetNext | PduKind::GetBulk => Some(p.request_id),
                    _ => None,
                },
                None => None,
            },
            None => None,
        },
        ScopedData::Encrypted(_) => None,
    }
}

/// Build the REPORT that announces our engine id, boots and time to a
/// discovering client.
fn build_discovery_report(
    m: &V3Message,
    usm: &UsmParams,
    engine_id: &Vec<u8>,
    boots: u32,
    time: u32,
) -> (r: Option<Vec<u8>>)
    ensures
        bytes_view(r) == discovery_report_spec(m.view(), usm.view(), engine_id@, boots, time),
{
    let request_id = match extract_request_id(m) {
        Some(id) => id,
        None => 0,
    };
    let mut bindings: Vec<VarBindOut> = Vec::new();
    bindings.push(VarBindOut { oid: usm_stats_unknown_engine_ids_oid(), value: VarValue::Integer(1) });
    let report = ResponsePdu { request_id, error_status: 0, error_index: 0, bindings };
    proof {
        assert(report.view().bindings =~= seq![(usm_stats_unknown_engine_ids(), VarValue::Integer(1))]);
    }
    let data = match encode_pdus(ReplyKind::Report, &report) {
        Some(d) => d,
        None => return None,
    };
    let scoped = ScopedPduParts { engine_id: copy_bytes(engine_id), name: Vec::new(), data };
    proof {
        assert(scoped.view().name =~= Seq::<u8>::empty());
    }
    let scoped_ber = match encode_scoped(&scoped) {
        Some(b) => b,
        None => return None,
    };
    let (boots_ber, time_ber) = match boots_time(boots, time) {
        Some(bt) => bt,
        None => return None,
    };
    let params = UsmParams {
        engine_id: copy_bytes(engine_id),
        engine_boots: boots_ber,
        engine_time: time_ber,
        user_name: copy_bytes(&usm.user_name),
        auth_params: Vec::new(),
        priv_params: Vec::new(),
    };
    proof {
        assert(params.view().auth_params =~= Seq::<u8>::empty());
        assert(params.view().priv_params =~= Seq::<u8>::empty());
    }
    let sp = match encode_usm(&params) {
        Some(b) => b,
        None => return None,
    };
    let reply = reply_message_of(m, 0x04, sp, ScopedData::Cleartext(scoped_ber));
    encode_v3(&reply)
}

/// Check the request's HMAC: its authentication parameters must be the
/// 16-byte tag of the request re-encoded with those parameters zeroed.
fn verify_hmac(m: &V3Message, usm: &UsmParams, auth_key: &Vec<u8>) -> (ok: bool)
    ensures
        ok == hmac_ok_spec(m.view(), usm.view(), auth_key@),
{
    if usm.auth_params.len() != AUTH_TRUNC_LEN {
        return false;
    }
    let zeroed = UsmParams {
        engine_id: copy_bytes(&usm.engine_id),
        engine_boots: copy_bytes(&usm.engine_boots),
        engine_time: copy_bytes(&usm.engine_time),
        user_name: copy_bytes(&usm.user_name),
        auth_params: zeroes(AUTH_TRUNC_LEN),
        priv_params: copy_bytes(&usm.priv_params),
    };
    proof {
        assert(zeroed.view() == (UsmParamsView { auth_params: zeros(AUTH_TRUNC_LEN as nat), ..usm.view() }));
    }
    let sp = match encode_usm(&zeroed) {
        Some(b) => b,
        None => return false,
    };
    let to_sign = V3Message {
        version: copy_bytes(&m.version),
        message_id: copy_bytes(&m.message_id),
        max_size: copy_bytes(&m.max_size),
        flags: copy_bytes(&m.flags),
        security_model: copy_bytes(&m.security_model),
        security_parameters: sp,
        scoped: copy_scoped(&m.scoped),
    };
    let bytes = match encode_v3(&to_sign) {
        Some(b) => b,
        None => return false,
    };
    let computed = hmac_sign(auth_key.as_slice(), bytes.as_slice());
    bytes_equal(computed.as_slice(), usm.auth_params.as_slice())
}

/// The request's scoped PDU: the plaintext one, or the encrypted one
/// decrypted with the user's privacy key when the privFlag is set.
fn request_scoped(m: &V3Message, usm: &UsmParams, priv_key: &Vec<u8>, want_priv: bool) -> (r: Option<
    ScopedPduParts,
>)
    ensures
        r matches Some(s) ==> request_scoped_spec(m.view(), usm.view(), priv_key@, want_priv)
            == Some(s.view()),
        r is None ==> request_scoped_spec(m.view(), usm.view(), priv_key@, want_priv) is None,
{
    match &m.scoped {
        ScopedData::Cleartext(b) => decode_scoped(b.as_slice()),
        ScopedData::Encrypted(ct) => {
            if !want_priv || priv_key.len() < PRIV_KEY_LEN || usm.priv_params.len() < 8 {
                return None;
            }
            let boots: u32 = match integer_u32(usm.engine_boots.as_slice()) {
                Some(b) => b,
                None => 0,
            };
            let time: u32 = match integer_u32(usm.engine_time.as_slice()) {
                Some(t) => t,
                None => 0,
            };
            let plaintext = aes_cfb_decrypt(
                ct.as_slice(),
                priv_key.as_slice(),
                boots,
                time,
                usm.priv_params.as_slice(),
            );
            decode_scoped(plaintext.as_slice())
        },
    }
}

/// Build the signed (and, with `encrypt`, encrypted) reply around a scoped
/// PDU given as BER. `authenticated_replies_are_signed` gives its layout.
pub fn build_authenticated_reply(
    m: &V3Message,
    usm: &UsmParams,
    user: &UsmUser,
    engine_id: &Vec<u8>,
    boots: u32,
    time: u32,
    scoped: Vec<u8>,
    encrypt: bool,
    salt: &Vec<u8>,
) -> (r: Option<Vec<u8>>)
    requires
        salt@.len() == 8,
    ensures
        bytes_view(r) == authenticated_reply_spec(
            m.view(),
            usm.view(),
            user.auth_key@,
            user.priv_key@,
            engine_id@,
            boots,
            time,
            scoped@,
            encrypt,
            salt@,
        ),
        encrypt && user.priv_key@.len() >= PRIV_KEY_LEN ==> cfb_round_trips(
            user.priv_key@.take(PRIV_KEY_LEN as int),
            iv_spec(boots, time, salt@),
            scoped@,
        ),
{
    if encrypt && user.priv_key.len() < PRIV_KEY_LEN {
        return None;
    }
    let ghost scoped_view = scoped@;
    let data = if encrypt {
        ScopedData::Encrypted(
            aes_cfb_encrypt_with_salt(
                scoped.as_slice(),
                user.priv_key.as_slice(),
                boots,
                time,
                salt.as_slice(),
            ),
        )
    } else {
        ScopedData::Cleartext(scoped)
    };
    let (boots_ber, time_ber) = match boots_time(boots, time) {
        Some(bt) => bt,
        None => return None,
    };
    let flags: u8 = if encrypt {
        0x03
    } else {
        0x01
    };
    let params = UsmParams {
        engine_id: copy_bytes(engine_id),
        engine_boots: boots_ber,
        engine_time: time_ber,
        user_name: copy_bytes(&usm.user_name),
        auth_params: zeroes(AUTH_TRUNC_LEN),
        priv_params: if encrypt {
            copy_bytes(salt)
        } else {
            Vec::new()
        },
    };
    let ghost bt = boots_time_bytes(boots, time)->0;
    proof {
        if !encrypt {
            assert(params.view().priv_params =~= Seq::<u8>::empty());
        }
        assert(params.view() == reply_usm_params(
            engine_id@,
            bt,
            usm.user_name@,
            zeros(AUTH_TRUNC_LEN as nat),
            reply_priv_params(encrypt, salt@),
        ));
    }
    let sp0 = match encode_usm(&params) {
        Some(b) => b,
        None => return None,
    };
    let unsigned = reply_message_of(m, flags, sp0, copy_scoped(&data));
    let unsigned_ber = match encode_v3(&unsigned) {
        Some(b) => b,
        None => return None,
    };
    let mac = hmac_sign(user.auth_key.as_slice(), unsigned_ber.as_slice());
    let signed_params = UsmParams { auth_params: mac, ..params };
    assert(signed_params.view() == reply_usm_params(
        engine_id@,
        bt,
        usm.user_name@,
        mac@,
        reply_priv_params(encrypt, salt@),
    ));
    let sp1 = match encode_usm(&signed_params) {
        Some(b) => b,
        None => return None,
    };
    let signed = reply_message_of(m, flags, sp1, data);
    encode_v3(&signed)
}

/// Serve an authenticated request from a known user: check the HMAC when
/// the authFlag is set, decrypt when the privFlag is set, answer a Get or
/// GetNext, and build the signed reply.
fn user_reply(
    m: &V3Message,
    usm: &UsmParams,
    user: &UsmUser,
    engine_id: &Vec<u8>,
    boots: u32,
    values: &OidValues,
    time: u32,
    salt: &Vec<u8>,
) -> (r: Option<Vec<u8>>)
    requires
        salt@.len() == 8,
    ensures
        bytes_view(r) == user_reply_spec(
            m.view(),
            usm.view(),
            user.auth_key@,
            user.priv_key@,
            engine_id@,
            boots,
            values.view(),
            time,
            salt@,
        ),
        priv_flag(flags_byte(m.view().flags)) && user.priv_key@.len() >= PRIV_KEY_LEN ==> match response_scoped_spec(
            m.view(),
            usm.view(),
            user.auth_key@,
            user.priv_key@,
            engine_id@,
            values.view(),
        ) {
            Some(scoped) => cfb_round_trips(
                user.priv_key@.take(PRIV_KEY_LEN as int),
                iv_spec(boots, time, salt@),
                scoped,
            ),
            None => true,
        },
{
    let flags: u8 = if m.flags.len() > 0 {
        m.flags[0]
    } else {
        0
    };
    let want_auth = flags & 0x01 != 0;
    let want_priv = flags & 0x02 != 0;
    proof {
        assert((flags & 0x01 != 0) == (flags % 2 == 1)) by (bit_vector);
        assert((flags & 0x02 != 0) == ((flags / 2) % 2 == 1)) by (bit_vector);
    }
    if want_auth && !verify_hmac(m, usm, &user.auth_key) {
        return None;
    }
    let scoped = match request_scoped(m, usm, &user.priv_key, want_priv) {
        Some(s) => s,
        None => return None,
    };
    let request = match decode_pdus(scoped.data.as_slice()) {
        Some(p) => p,
        None => return None,
    };
    let is_get_next = match request.kind {
        PduKind::Get => false,
        PduKind::GetNext => true,
        _ => return None,
    };
    let response = build_response(&request, values, is_get_next);
    if !response_fits_ber(&response) {
        return None;
    }
    let data = match encode_pdus(ReplyKind::Response, &response) {
        Some(d) => d,
        None => return None,
    };
    let response_scoped = ScopedPduParts { engine_id: copy_bytes(engine_id), name: scoped.name, data };
    let scoped_ber = match encode_scoped(&response_scoped) {
        Some(b) => b,
        None => return None,
    };
    build_authenticated_reply(m, usm, user, engine_id, boots, time, scoped_ber, want_priv, salt)
}

/// Answer a v3 datagram at engine time `time`, encrypting with `salt` if
/// the reply is encrypted. `None` means the datagram is dropped.
pub fn respond_v3(
    datagram: &[u8],
    state: &AgentState,
    values: &OidValues,
    time: u32,
    salt: &Vec<u8>,
) -> (r: Option<Vec<u8>>)
    requires
        salt@.len() == 8,
    ensures
        bytes_view(r) == v3_reply_spec(
            datagram@,
            state.engine_id@,
            state.engine_boots,
            state.users.view(),
            values.view(),
            time,
            salt@,
        ),
        v3_reply_decrypts(
            datagram@,
            state.engine_id@,
            state.engine_boots,
            state.users.view(),
            values.view(),
            time,
            salt@,
        ),
{
    let m = match decode_v3(datagram) {
        Some(m) => m,
        None => return None,
    };
    match integer_u32(m.security_model.as_slice()) {
        Some(3) => {},
        _ => return None,
    }
    let usm = match decode_usm(m.security_parameters.as_slice()) {
        Some(u) => u,
        None => return None,
    };
    if usm.engine_id.len() == 0 {
        return build_discovery_report(&m, &usm, &state.engine_id, state.engine_boots, time);
    }
    if !bytes_equal(usm.engine_id.as_slice(), state.engine_id.as_slice()) {
        return None;
    }
    let valid = is_utf8(usm.user_name.as_slice());
    let empty: Vec<u8> = Vec::new();
    let name: &[u8] = if valid {
        usm.user_name.as_slice()
    } else {
        empty.as_slice()
    };
    proof {
        assert(name@ == lookup_name(usm.user_name@));
    }
    match state.users.get(name) {
        Some(user) => user_reply(
            &m,
            &usm,
            user,
            &state.engine_id,
            state.engine_boots,
            values,
            time,
            salt,
        ),
        None => None,
    }
}

/// Dispatch a v3 datagram: read the engine time and draw a fresh salt,
/// then answer as `respond_v3` does with them. `None` means the datagram
/// is dropped.
pub fn handle_v3_datagram(datagram: &[u8], state: &AgentState, values: &OidValues) -> (r: Option<
    Vec<u8>,
>)
    ensures
        exists|time: u32, salt: Seq<u8>|
            {
                &&& salt.len() == 8
                &&& bytes_view(r) == v3_reply_spec(
                    datagram@,
                    state.engine_id@,
                    state.engine_boots,
                    state.users.view(),
                    values.view(),
                    time,
                    salt,
                )
                &&& v3_reply_decrypts(
                    datagram@,
                    state.engine_id@,
                    state.engine_boots,
                    state.users.view(),
                    values.view(),
                    time,
                    salt,
                )
            },
{
    let time = state.engine_time();
    let salt = random_salt();
    respond_v3(datagram, state, values, time, &salt)
}

/// A request that names an engine other than ours gets no reply.
pub proof fn other_engine_is_dropped(
    datagram: Seq<u8>,
    engine_id: Seq<u8>,
    boots: u32,
    users: Map<Seq<u8>, (Seq<u8>, Seq<u8>)>,
    values: Map<Seq<u32>, i64>,
    time: u32,
    salt: Seq<u8>,
    m: V3MessageView,
    usm: UsmParamsView,
)
    requires
        v3_message_of(datagram) == Some(m),
        usm_params_of(m.security_parameters) == Some(usm),
        usm.engine_id.len() > 0,
        usm.engine_id != engine_id,
    ensures
        v3_reply_spec(datagram, engine_id, boots, users, values, time, salt) is None,
{
}

/// A request from a user that is not registered gets no reply.
pub proof fn unknown_user_is_dropped(
    datagram: Seq<u8>,
    engine_id: Seq<u8>,
    boots: u32,
    users: Map<Seq<u8>, (Seq<u8>, Seq<u8>)>,
    values: Map<Seq<u32>, i64>,
    time: u32,
    salt: Seq<u8>,
    m: V3MessageView,
    usm: UsmParamsView,
)
    requires
        v3_message_of(datagram) == Some(m),
        usm_params_of(m.security_parameters) == Some(usm),
        usm.engine_id.len() > 0,
        !users.contains_key(lookup_name(usm.user_name)),
    ensures
        v3_reply_spec(datagram, engine_id, boots, users, values, time, salt) is None,
{
}

/// A request that asks for authentication and whose HMAC does not check
/// out gets no reply.
pub proof fn bad_hmac_is_dropped(
    datagram: Seq<u8>,
    engine_id: Seq<u8>,
    boots: u32,
    users: Map<Seq<u8>, (Seq<u8>, Seq<u8>)>,
    values: Map<Seq<u32>, i64>,
    time: u32,
    salt: Seq<u8>,
    m: V3MessageView,
    usm: UsmParamsView,
)
    requires
        v3_message_of(datagram) == Some(m),
        integer_u32_of(m.security_model) == Some(3u32),
        usm_params_of(m.security_parameters) == Some(usm),
        usm.engine_id == engine_id,
        engine_id.len() > 0,
        users.contains_key(lookup_name(usm.user_name)),
        auth_flag(flags_byte(m.flags)),
        !hmac_ok_spec(m, usm, users[lookup_name(usm.user_name)].0),
    ensures
        v3_reply_spec(datagram, engine_id, boots, users, values, time, salt) is None,
{
}

/// An encrypted scoped PDU in a request without the privFlag gets no
/// reply.
pub proof fn encrypted_without_priv_flag_is_dropped(
    datagram: Seq<u8>,
    engine_id: Seq<u8>,
    boots: u32,
    users: Map<Seq<u8>, (Seq<u8>, Seq<u8>)>,
    values: Map<Seq<u32>, i64>,
    time: u32,
    salt: Seq<u8>,
    m: V3MessageView,
    usm: UsmParamsView,
    ct: Seq<u8>,
)
    requires
        v3_message_of(datagram) == Some(m),
        usm_params_of(m.security_parameters) == Some(usm),
        usm.engine_id.len() > 0,
        m.scoped == ScopedDataView::Encrypted(ct),
        !priv_flag(flags_byte(m.flags)),
    ensures
        v3_reply_spec(datagram, engine_id, boots, users, values, time, salt) is None,
{
}

/// Discovery: a request that names no engine is answered with a
/// noAuthNoPriv reportable REPORT whose security parameters carry our
/// engine id, boots and time, and the request's user name, unauthenticated.
pub proof fn discovery_announces_our_engine(
    datagram: Seq<u8>,
    engine_id: Seq<u8>,
    boots: u32,
    users: Map<Seq<u8>, (Seq<u8>, Seq<u8>)>,
    values: Map<Seq<u32>, i64>,
    time: u32,
    salt: Seq<u8>,
    m: V3MessageView,
    usm: UsmParamsView,
    reply: Seq<u8>,
)
    requires
        v3_message_of(datagram) == Some(m),
        integer_u32_of(m.security_model) == Some(3u32),
        usm_params_of(m.security_parameters) == Some(usm),
        usm.engine_id.len() == 0,
        v3_reply_spec(datagram, engine_id, boots, users, values, time, salt) == Some(reply),
    ensures
        exists|bt: (Seq<u8>, Seq<u8>), sp: Seq<u8>, scoped: ScopedDataView|
            {
                &&& boots_time_bytes(boots, time) == Some(bt)
                &&& usm_params_bytes(
                    UsmParamsView {
                        engine_id,
                        engine_boots: bt.0,
                        engine_time: bt.1,
                        user_name: usm.user_name,
                        auth_params: Seq::empty(),
                        priv_params: Seq::empty(),
                    },
                ) == Some(sp)
                &&& v3_message_bytes(reply_message(m, 0x04, sp, scoped)) == Some(reply)
            },
{
    let request_id = match request_id_spec(m) {
        Some(r) => r,
        None => 0,
    };
    let report = ResponsePduView {
        request_id,
        error_status: 0,
        error_index: 0,
        bindings: seq![(usm_stats_unknown_engine_ids(), VarValue::Integer(1))],
    };
    let data = reply_pdu_bytes(ReplyKind::Report, report)->0;
    let scoped = scoped_pdu_bytes(ScopedPduView { engine_id, name: Seq::empty(), data })->0;
    let bt = boots_time_bytes(boots, time)->0;
    let sp = usm_params_bytes(
        UsmParamsView {
            engine_id,
            engine_boots: bt.0,
            engine_time: bt.1,
            user_name: usm.user_name,
            auth_params: Seq::empty(),
            priv_params: Seq::empty(),
        },
    )->0;
    assert(v3_message_bytes(reply_message(m, 0x04, sp, ScopedDataView::Cleartext(scoped))) == Some(
        reply,
    ));
}

/// The layout of an authenticated reply. Its flags are authPriv (0x03)
/// when encrypting and authNoPriv (0x01) otherwise; its USM parameters
/// carry our engine id, boots and time, the request's user name, and the
/// salt as privacy parameters (none when not encrypting); its scoped PDU is
/// the plaintext one, or its encryption under the user's privacy key and
/// the IV of boots, time and salt, which decrypts back to it wherever the
/// cipher round-trips (as the encrypting call states). And it is signed:
/// the authentication parameters are the truncated HMAC, under the user's
/// authentication key, of the same reply with zeroed authentication
/// parameters.
pub proof fn authenticated_replies_are_signed(
    m: V3MessageView,
    usm: UsmParamsView,
    auth_key: Seq<u8>,
    priv_key: Seq<u8>,
    engine_id: Seq<u8>,
    boots: u32,
    time: u32,
    scoped: Seq<u8>,
    encrypt: bool,
    salt: Seq<u8>,
    reply: Seq<u8>,
)
    requires
        authenticated_reply_spec(
            m,
            usm,
            auth_key,
            priv_key,
            engine_id,
            boots,
            time,
            scoped,
            encrypt,
            salt,
        ) == Some(reply),
    ensures
        exists|bt: (Seq<u8>, Seq<u8>), data: ScopedDataView, sp0: Seq<u8>, unsigned: Seq<u8>, sp1: Seq<u8>|
            #![trigger usm_params_bytes(reply_usm_params(engine_id, bt, usm.user_name, zeros(AUTH_TRUNC_LEN as nat), reply_priv_params(encrypt, salt))), v3_message_bytes(reply_message(m, reply_flags(encrypt), sp0, data)), hmac_sha256_of(auth_key, unsigned), v3_message_bytes(reply_message(m, reply_flags(encrypt), sp1, data))]
            {
                &&& boots_time_bytes(boots, time) == Some(bt)
                &&& !encrypt ==> data == ScopedDataView::Cleartext(scoped)
                &&& encrypt ==> priv_key.len() >= PRIV_KEY_LEN && data == ScopedDataView::Encrypted(
                    aes128_cfb_encrypt_of(
                        priv_key.take(PRIV_KEY_LEN as int),
                        iv_spec(boots, time, salt),
                        scoped,
                    ),
                )
                &&& (encrypt && cfb_round_trips(
                    priv_key.take(PRIV_KEY_LEN as int),
                    iv_spec(boots, time, salt),
                    scoped,
                )) ==> (data matches ScopedDataView::Encrypted(ct) && aes128_cfb_decrypt_of(
                    priv_key.take(PRIV_KEY_LEN as int),
                    iv_spec(boots, time, salt),
                    ct,
                ) == scoped)
                &&& usm_params_bytes(
                    reply_usm_params(
                        engine_id,
                        bt,
                        usm.user_name,
                        zeros(AUTH_TRUNC_LEN as nat),
                        reply_priv_params(encrypt, salt),
                    ),
                ) == Some(sp0)
                &&& v3_message_bytes(reply_message(m, reply_flags(encrypt), sp0, data)) == Some(
                    unsigned,
                )
                &&& usm_params_bytes(
                    reply_usm_params(
                        engine_id,
                        bt,
                        usm.user_name,
                        hmac_sha256_of(auth_key, unsigned).take(AUTH_TRUNC_LEN as int),
                        reply_priv_params(encrypt, salt),
                    ),
                ) == Some(sp1)
                &&& v3_message_bytes(reply_message(m, reply_flags(encrypt), sp1, data)) == Some(
                    reply,
                )
            },
{
    let bt = boots_time_bytes(boots, time)->0;
    let key = priv_key.take(PRIV_KEY_LEN as int);
    let data = if encrypt {
        ScopedDataView::Encrypted(aes128_cfb_encrypt_of(key, iv_spec(boots, time, salt), scoped))
    } else {
        ScopedDataView::Cleartext(scoped)
    };
    let priv_params = reply_priv_params(encrypt, salt);
    let sp0 = usm_params_bytes(
        reply_usm_params(engine_id, bt, usm.user_name, zeros(AUTH_TRUNC_LEN as nat), priv_params),
    )->0;
    let unsigned = v3_message_bytes(reply_message(m, reply_flags(encrypt), sp0, data))->0;
    let sp1 = usm_params_bytes(
        reply_usm_params(
            engine_id,
            bt,
            usm.user_name,
            hmac_sha256_of(auth_key, unsigned).take(AUTH_TRUNC_LEN as int),
            priv_params,
        ),
    )->0;
    assert(v3_message_bytes(reply_message(m, reply_flags(encrypt), sp1, data)) == Some(reply));
}

/// An authenticated reply answers the PDU it came from: the scoped PDU
/// inside it (signed, and encrypted when the privFlag is set, as
/// `authenticated_replies_are_signed` lays out) carries our engine id, the
/// request's context name, and the Response PDU with the request-id of the
/// Get or GetNext it answers, error-status 0, error-index 0 and one binding
/// per requested OID in order. A request with the authFlag set got here
/// only with a valid HMAC.
pub proof fn user_reply_echoes_request_id(
    m: V3MessageView,
    usm: UsmParamsView,
    auth_key: Seq<u8>,
    priv_key: Seq<u8>,
    engine_id: Seq<u8>,
    boots: u32,
    values: Map<Seq<u32>, i64>,
    time: u32,
    salt: Seq<u8>,
    reply: Seq<u8>,
)
    requires
        user_reply_spec(m, usm, auth_key, priv_key, engine_id, boots, values, time, salt) == Some(
            reply,
        ),
    ensures
        auth_flag(flags_byte(m.flags)) ==> hmac_ok_spec(m, usm, auth_key),
        request_scoped_spec(m, usm, priv_key, priv_flag(flags_byte(m.flags))) matches Some(s)
            && request_pdu_of(s.data) matches Some(p) && (p.kind == PduKind::Get || p.kind
            == PduKind::GetNext) && exists|resp: ResponsePduView|
            {
                &&& resp.request_id == p.request_id
                &&& resp.error_status == 0
                &&& resp.error_index == 0
                &&& resp.bindings.len() == p.oids.len()
                &&& resp.bindings == answers(values, p.oids, p.kind == PduKind::GetNext)
                &&& #[trigger] reply_pdu_bytes(ReplyKind::Response, resp) matches Some(data)
                    && scoped_pdu_bytes(ScopedPduView { engine_id, name: s.name, data }) matches Some(
                    scoped,
                ) && authenticated_reply_spec(
                    m,
                    usm,
                    auth_key,
                    priv_key,
                    engine_id,
                    boots,
                    time,
                    scoped,
                    priv_flag(flags_byte(m.flags)),
                    salt,
                ) == Some(reply)
            },
{
    let s = request_scoped_spec(m, usm, priv_key, priv_flag(flags_byte(m.flags)))->0;
    let p = request_pdu_of(s.data)->0;
    let resp = ResponsePduView {
        request_id: p.request_id,
        error_status: 0,
        error_index: 0,
        bindings: answers(values, p.oids, p.kind == PduKind::GetNext),
    };
    let data = reply_pdu_bytes(ReplyKind::Response, resp)->0;
    assert(scoped_pdu_bytes(ScopedPduView { engine_id, name: s.name, data }) is Some);
}

/// An encrypted reply decrypts back: its scoped PDU, decrypted under the
/// user's privacy key with the IV of our boots, the reply time and the
/// salt, is the scoped PDU that answers the request.
pub proof fn encrypted_reply_decrypts_to_response(
    datagram: Seq<u8>,
    engine_id: Seq<u8>,
    boots: u32,
    users: Map<Seq<u8>, (Seq<u8>, Seq<u8>)>,
    values: Map<Seq<u32>, i64>,
    time: u32,
    salt: Seq<u8>,
    reply: Seq<u8>,
    priv_key: Seq<u8>,
    scoped: Seq<u8>,
)
    requires
        v3_reply_spec(datagram, engine_id, boots, users, values, time, salt) == Some(reply),
        v3_encrypted_response(datagram, engine_id, users, values) == Some((priv_key, scoped)),
        v3_reply_decrypts(datagram, engine_id, boots, users, values, time, salt),
    ensures
        exists|m: V3MessageView, sp: Seq<u8>, ct: Seq<u8>|
            {
                &&& v3_message_of(datagram) == Some(m)
                &&& v3_message_bytes(reply_message(m, 0x03, sp, ScopedDataView::Encrypted(ct)))
                    == Some(reply)
                &&& aes128_cfb_decrypt_of(
                    priv_key.take(PRIV_KEY_LEN as int),
                    iv_spec(boots, time, salt),
                    ct,
                ) == scoped
            },
{
    let m = v3_message_of(datagram)->0;
    let usm = usm_params_of(m.security_parameters)->0;
    let user = users[lookup_name(usm.user_name)];
    assert(user.1 == priv_key);
    assert(response_scoped_spec(m, usm, user.0, user.1, engine_id, values) == Some(scoped));
    assert(priv_flag(flags_byte(m.flags)));
    assert(user_reply_spec(m, usm, user.0, user.1, engine_id, boots, values, time, salt) == Some(
        reply,
    ));
    assert(authenticated_reply_spec(
        m,
        usm,
        user.0,
        user.1,
        engine_id,
        boots,
        time,
        scoped,
        true,
        salt,
    ) == Some(reply));
    assert(priv_key.len() >= PRIV_KEY_LEN);
    let ct = aes128_cfb_encrypt_of(priv_key.take(PRIV_KEY_LEN as int), iv_spec(boots, time, salt), scoped);
    let data = ScopedDataView::Encrypted(ct);
    let bt = boots_time_bytes(boots, time)->0;
    let params = UsmParamsView {
        engine_id,
        engine_boots: bt.0,
        engine_time: bt.1,
        user_name: usm.user_name,
        auth_params: zeros(AUTH_TRUNC_LEN as nat),
        priv_params: salt,
    };
    let sp0 = usm_params_bytes(params)->0;
    let unsigned = v3_message_bytes(reply_message(m, 0x03, sp0, data))->0;
    let sp1 = usm_params_bytes(
        UsmParamsView {
            auth_params: hmac_sha256_of(user.0, unsigned).take(AUTH_TRUNC_LEN as int),
            ..params
        },
    )->0;
    assert(v3_message_bytes(reply_message(m, 0x03, sp1, data)) == Some(reply));
    assert(cfb_round_trips(priv_key.take(PRIV_KEY_LEN as int), iv_spec(boots, time, salt), scoped));
}

} // verus!
