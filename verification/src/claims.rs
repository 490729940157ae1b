//! The claim bundle carried by every credential, and its canonical JSON
//! payload: an emitter, a strict parser, and the proof that they round-trip.

use vstd::prelude::*;
use crate::decimal::{spec_dec, spec_parse_u64, push_u64_dec, parse_u64_dec, pow10};

verus! {

/// The semantic purpose of a credential.  A claim bundle carries exactly
/// one of these; consumers must check it before honouring the credential.
#[derive(Clone, Copy, Debug, PartialEq, Eq, Structural)]
pub enum TokenType {
    /// Long-lived session renewal (7 days).
    Refresh,
    /// Short-lived session access with a role set (1 hour).
    Access,
    /// In-flight registration bound to an email (15 minutes).
    Registration,
    /// In-flight password reset bound to an email (30 minutes).
    PasswordReset,
}

/// A capability tag attached to an Access credential.
#[derive(Clone, Copy, Debug, PartialEq, Eq, Structural)]
pub enum Role {
    EditMemo,
    ViewMemo,
    SummarizeMemo,
    EditTag,
    /// Account self-service except deletion.
    EditAccount,
    DeleteAccount,
    ResetPassword,
}

/// The cleartext payload of a credential.  String-valued fields are kept as
/// byte strings; the subject is a user id for session credentials and an
/// email address for registration and password-reset credentials.
pub struct JwtClaim {
    pub iss: Vec<u8>,
    pub aud: Vec<u8>,
    pub sub: Vec<u8>,
    pub iat: u64,
    pub nbf: u64,
    pub exp: u64,
    pub jti: Vec<u8>,
    pub typ: TokenType,
    pub role: Option<Vec<Role>>,
}

/// The mathematical value of a claim bundle.
pub ghost struct ClaimData {
    pub iss: Seq<u8>,
    pub aud: Seq<u8>,
    pub sub: Seq<u8>,
    pub iat: u64,
    pub nbf: u64,
    pub exp: u64,
    pub jti: Seq<u8>,
    pub typ: TokenType,
    pub role: Option<Seq<Role>>,
}

impl View for JwtClaim {
    type V = ClaimData;

    open spec fn view(&self) -> ClaimData {
        ClaimData {
            iss: self.iss@,
            aud: self.aud@,
            sub: self.sub@,
            iat: self.iat,
            nbf: self.nbf,
            exp: self.exp,
            jti: self.jti@,
            typ: self.typ,
            role: match self.role {
                Some(v) => Some(v@),
                None => None,
            },
        }
    }
}

/// A byte string that can sit inside a JSON string of the canonical payload
/// unescaped: no quote, no backslash, ASCII only.
pub open spec fn json_safe(s: Seq<u8>) -> bool {
    forall|i: int| 0 <= i < s.len() ==> s[i] != 34 && s[i] != 92 && #[trigger] s[i] < 128
}

/// Well-formedness needed for the payload codec to round-trip: the string
/// fields embed unescaped and the times render in at most 19 digits.
pub open spec fn claim_wf(c: ClaimData) -> bool {
    &&& json_safe(c.iss)
    &&& json_safe(c.aud)
    &&& json_safe(c.sub)
    &&& json_safe(c.jti)
    &&& c.iat < pow10(19)
    &&& c.nbf < pow10(19)
    &&& c.exp < pow10(19)
}

/// The byte string `{\"iss\":\"`.
pub open spec fn lit_head_iss() -> Seq<u8> {
    seq![123, 34, 105, 115, 115, 34, 58, 34]
}

/// Returns the bytes of the same literal.
pub fn lit_head_iss_vec() -> (v: Vec<u8>)
    ensures
        v@ == lit_head_iss(),
{
    let mut v: Vec<u8> = Vec::new();
    v.push(123);
    v.push(34);
    v.push(105);
    v.push(115);
    v.push(115);
    v.push(34);
    v.push(58);
    v.push(34);
    proof {
        assert(v@ =~= lit_head_iss());
    }
    v
}

/// The byte string `,\"aud\":\"`.
pub open spec fn lit_mid_aud() -> Seq<u8> {
    seq![44, 34, 97, 117, 100, 34, 58, 34]
}

/// Returns the bytes of the same literal.
pub fn lit_mid_aud_vec() -> (v: Vec<u8>)
    ensures
        v@ == lit_mid_aud(),
{
    let mut v: Vec<u8> = Vec::new();
    v.push(44);
    v.push(34);
    v.push(97);
    v.push(117);
    v.push(100);
    v.push(34);
    v.push(58);
    v.push(34);
    proof {
        assert(v@ =~= lit_mid_aud());
    }
    v
}

/// The byte string `,\"sub\":\"`.
pub open spec fn lit_mid_sub() -> Seq<u8> {
    seq![44, 34, 115, 117, 98, 34, 58, 34]
}

/// Returns the bytes of the same literal.
pub fn lit_mid_sub_vec() -> (v: Vec<u8>)
    ensures
        v@ == lit_mid_sub(),
{
    let mut v: Vec<u8> = Vec::new();
    v.push(44);
    v.push(34);
    v.push(115);
    v.push(117);
    v.push(98);
    v.push(34);
    v.push(58);
    v.push(34);
    proof {
        assert(v@ =~= lit_mid_sub());
    }
    v
}

/// The byte string `,\"iat\":`.
pub open spec fn lit_mid_iat() -> Seq<u8> {
    seq![44, 34, 105, 97, 116, 34, 58]
}

/// Returns the bytes of the same literal.
pub fn lit_mid_iat_vec() -> (v: Vec<u8>)
    ensures
        v@ == lit_mid_iat(),
{
    let mut v: Vec<u8> = Vec::new();
    v.push(44);
    v.push(34);
    v.push(105);
    v.push(97);
    v.push(116);
    v.push(34);
    v.push(58);
    proof {
        assert(v@ =~= lit_mid_iat());
    }
    v
}

/// The byte string `,\"nbf\":`.
pub open spec fn lit_mid_nbf() -> Seq<u8> {
    seq![44, 34, 110, 98, 102, 34, 58]
}

/// Returns the bytes of the same literal.
pub fn lit_mid_nbf_vec() -> (v: Vec<u8>)
    ensures
        v@ == lit_mid_nbf(),
{
    let mut v: Vec<u8> = Vec::new();
    v.push(44);
    v.push(34);
    v.push(110);
    v.push(98);
    v.push(102);
    v.push(34);
    v.push(58);
    proof {
        assert(v@ =~= lit_mid_nbf());
    }
    v
}

/// The byte string `,\"exp\":`.
pub open spec fn lit_mid_exp() -> Seq<u8> {
    seq![44, 34, 101, 120, 112, 34, 58]
}

/// Returns the bytes of the same literal.
pub fn lit_mid_exp_vec() -> (v: Vec<u8>)
    ensures
        v@ == lit_mid_exp(),
{
    let mut v: Vec<u8> = Vec::new();
    v.push(44);
    v.push(34);
    v.push(101);
    v.push(120);
    v.push(112);
    v.push(34);
    v.push(58);
    proof {
        assert(v@ =~= lit_mid_exp());
    }
    v
}

/// The byte string `,\"jti\":\"`.
pub open spec fn lit_mid_jti() -> Seq<u8> {
    seq![44, 34, 106, 116, 105, 34, 58, 34]
}

/// Returns the bytes of the same literal.
pub fn lit_mid_jti_vec() -> (v: Vec<u8>)
    ensures
        v@ == lit_mid_jti(),
{
    let mut v: Vec<u8> = Vec::new();
    v.push(44);
    v.push(34);
    v.push(106);
    v.push(116);
    v.push(105);
    v.push(34);
    v.push(58);
    v.push(34);
    proof {
        assert(v@ =~= lit_mid_jti());
    }
    v
}

/// The byte string `,\"typ\":\"`.
pub open spec fn lit_mid_typ() -> Seq<u8> {
    seq![44, 34, 116, 121, 112, 34, 58, 34]
}

/// Returns the bytes of the same literal.
pub fn lit_mid_typ_vec() -> (v: Vec<u8>)
    ensures
        v@ == lit_mid_typ(),
{
    let mut v: Vec<u8> = Vec::new();
    v.push(44);
    v.push(34);
    v.push(116);
    v.push(121);
    v.push(112);
    v.push(34);
    v.push(58);
    v.push(34);
    proof {
        assert(v@ =~= lit_mid_typ());
    }
    v
}

/// The byte string `,\"role\":`.
pub open spec fn lit_mid_role() -> Seq<u8> {
    seq![44, 34, 114, 111, 108, 101, 34, 58]
}

/// Returns the bytes of the same literal.
pub fn lit_mid_role_vec() -> (v: Vec<u8>)
    ensures
        v@ == lit_mid_role(),
{
    let mut v: Vec<u8> = Vec::new();
    v.push(44);
    v.push(34);
    v.push(114);
    v.push(111);
    v.push(108);
    v.push(101);
    v.push(34);
    v.push(58);
    proof {
        assert(v@ =~= lit_mid_role());
    }
    v
}

/// The byte string `null`.
pub open spec fn lit_null() -> Seq<u8> {
    seq![110, 117, 108, 108]
}

/// Returns the bytes of the same literal.
pub fn lit_null_vec() -> (v: Vec<u8>)
    ensures
        v@ == lit_null(),
{
    let mut v: Vec<u8> = Vec::new();
    v.push(110);
    v.push(117);
    v.push(108);
    v.push(108);
    proof {
        assert(v@ =~= lit_null());
    }
    v
}

/// The byte string `Refresh`.
pub open spec fn lit_name_refresh() -> Seq<u8> {
    seq![82, 101, 102, 114, 101, 115, 104]
}

/// Returns the bytes of the same literal.
pub fn lit_name_refresh_vec() -> (v: Vec<u8>)
    ensures
        v@ == lit_name_refresh(),
{
    let mut v: Vec<u8> = Vec::new();
    v.push(82);
    v.push(101);
    v.push(102);
    v.push(114);
    v.push(101);
    v.push(115);
    v.push(104);
    proof {
        assert(v@ =~= lit_name_refresh());
    }
    v
}

/// The byte string `Access`.
pub open spec fn lit_name_access() -> Seq<u8> {
    seq![65, 99, 99, 101, 115, 115]
}

/// Returns the bytes of the same literal.
pub fn lit_name_access_vec() -> (v: Vec<u8>)
    ensures
        v@ == lit_name_access(),
{
    let mut v: Vec<u8> = Vec::new();
    v.push(65);
    v.push(99);
    v.push(99);
    v.push(101);
    v.push(115);
    v.push(115);
    proof {
        assert(v@ =~= lit_name_access());
    }
    v
}

/// The byte string `Registration`.
pub open spec fn lit_name_registration() -> Seq<u8> {
    seq![82, 101, 103, 105, 115, 116, 114, 97, 116, 105, 111, 110]
}

/// Returns the bytes of the same literal.
pub fn lit_name_registration_vec() -> (v: Vec<u8>)
    ensures
        v@ == lit_name_registration(),
{
    let mut v: Vec<u8> = Vec::new();
    v.push(82);
    v.push(101);
    v.push(103);
    v.push(105);
    v.push(115);
    v.push(116);
    v.push(114);
    v.push(97);
    v.push(116);
    v.push(105);
    v.push(111);
    v.push(110);
    proof {
        assert(v@ =~= lit_name_registration());
    }
    v
}

/// The byte string `PasswordReset`.
pub open spec fn lit_name_password_reset() -> Seq<u8> {
    seq![80, 97, 115, 115, 119, 111, 114, 100, 82, 101, 115, 101, 116]
}

/// Returns the bytes of the same literal.
pub fn lit_name_password_reset_vec() -> (v: Vec<u8>)
    ensures
        v@ == lit_name_password_reset(),
{
    let mut v: Vec<u8> = Vec::new();
    v.push(80);
    v.push(97);
    v.push(115);
    v.push(115);
    v.push(119);
    v.push(111);
    v.push(114);
    v.push(100);
    v.push(82);
    v.push(101);
    v.push(115);
    v.push(101);
    v.push(116);
    proof {
        assert(v@ =~= lit_name_password_reset());
    }
    v
}

/// The byte string `EditMemo`.
pub open spec fn lit_role_edit_memo() -> Seq<u8> {
    seq![69, 100, 105, 116, 77, 101, 109, 111]
}

/// Returns the bytes of the same literal.
pub fn lit_role_edit_memo_vec() -> (v: Vec<u8>)
    ensures
        v@ == lit_role_edit_memo(),
{
    let mut v: Vec<u8> = Vec::new();
    v.push(69);
    v.push(100);
    v.push(105);
    v.push(116);
    v.push(77);
    v.push(101);
    v.push(109);
    v.push(111);
    proof {
        assert(v@ =~= lit_role_edit_memo());
    }
    v
}

/// The byte string `ViewMemo`.
pub open spec fn lit_role_view_memo() -> Seq<u8> {
    seq![86, 105, 101, 119, 77, 101, 109, 111]
}

/// Returns the bytes of the same literal.
pub fn lit_role_view_memo_vec() -> (v: Vec<u8>)
    ensures
        v@ == lit_role_view_memo(),
{
    let mut v: Vec<u8> = Vec::new();
    v.push(86);
    v.push(105);
    v.push(101);
    v.push(119);
    v.push(77);
    v.push(101);
    v.push(109);
    v.push(111);
    proof {
        assert(v@ =~= lit_role_view_memo());
    }
    v
}

/// The byte string `SummarizeMemo`.
pub open spec fn lit_role_summarize_memo() -> Seq<u8> {
    seq![83, 117, 109, 109, 97, 114, 105, 122, 101, 77, 101, 109, 111]
}

/// Returns the bytes of the same literal.
pub fn lit_role_summarize_memo_vec() -> (v: Vec<u8>)
    ensures
        v@ == lit_role_summarize_memo(),
{
    let mut v: Vec<u8> = Vec::new();
    v.push(83);
    v.push(117);
    v.push(109);
    v.push(109);
    v.push(97);
    v.push(114);
    v.push(105);
    v.push(122);
    v.push(101);
    v.push(77);
    v.push(101);
    v.push(109);
    v.push(111);
    proof {
        assert(v@ =~= lit_role_summarize_memo());
    }
    v
}

/// The byte string `EditTag`.
pub open spec fn lit_role_edit_tag() -> Seq<u8> {
    seq![69, 100, 105, 116, 84, 97, 103]
}

/// Returns the bytes of the same literal.
pub fn lit_role_edit_tag_vec() -> (v: Vec<u8>)
    ensures
        v@ == lit_role_edit_tag(),
{
    let mut v: Vec<u8> = Vec::new();
    v.push(69);
    v.push(100);
    v.push(105);
    v.push(116);
    v.push(84);
    v.push(97);
    v.push(103);
    proof {
        assert(v@ =~= lit_role_edit_tag());
    }
    v
}

/// The byte string `EditAccount`.
pub open spec fn lit_role_edit_account() -> Seq<u8> {
    seq![69, 100, 105, 116, 65, 99, 99, 111, 117, 110, 116]
}

/// Returns the bytes of the same literal.
pub fn lit_role_edit_account_vec() -> (v: Vec<u8>)
    ensures
        v@ == lit_role_edit_account(),
{
    let mut v: Vec<u8> = Vec::new();
    v.push(69);
    v.push(100);
    v.push(105);
    v.push(116);
    v.push(65);
    v.push(99);
    v.push(99);
    v.push(111);
    v.push(117);
    v.push(110);
    v.push(116);
    proof {
        assert(v@ =~= lit_role_edit_account());
    }
    v
}

/// The byte string `DeleteAccount`.
pub open spec fn lit_role_delete_account() -> Seq<u8> {
    seq![68, 101, 108, 101, 116, 101, 65, 99, 99, 111, 117, 110, 116]
}

/// Returns the bytes of the same literal.
pub fn lit_role_delete_account_vec() -> (v: Vec<u8>)
    ensures
        v@ == lit_role_delete_account(),
{
    let mut v: Vec<u8> = Vec::new();
    v.push(68);
    v.push(101);
    v.push(108);
    v.push(101);
    v.push(116);
    v.push(101);
    v.push(65);
    v.push(99);
    v.push(99);
    v.push(111);
    v.push(117);
    v.push(110);
    v.push(116);
    proof {
        assert(v@ =~= lit_role_delete_account());
    }
    v
}

/// The byte string `ResetPassword`.
pub open spec fn lit_role_reset_password() -> Seq<u8> {
    seq![82, 101, 115, 101, 116, 80, 97, 115, 115, 119, 111, 114, 100]
}

/// Returns the bytes of the same literal.
pub fn lit_role_reset_password_vec() -> (v: Vec<u8>)
    ensures
        v@ == lit_role_reset_password(),
{
    let mut v: Vec<u8> = Vec::new();
    v.push(82);
    v.push(101);
    v.push(115);
    v.push(101);
    v.push(116);
    v.push(80);
    v.push(97);
    v.push(115);
    v.push(115);
    v.push(119);
    v.push(111);
    v.push(114);
    v.push(100);
    proof {
        assert(v@ =~= lit_role_reset_password());
    }
    v
}

/// The byte string `mimo-server`.
pub open spec fn lit_issuer() -> Seq<u8> {
    seq![109, 105, 109, 111, 45, 115, 101, 114, 118, 101, 114]
}

/// Returns the bytes of the same literal.
pub fn lit_issuer_vec() -> (v: Vec<u8>)
    ensures
        v@ == lit_issuer(),
{
    let mut v: Vec<u8> = Vec::new();
    v.push(109);
    v.push(105);
    v.push(109);
    v.push(111);
    v.push(45);
    v.push(115);
    v.push(101);
    v.push(114);
    v.push(118);
    v.push(101);
    v.push(114);
    proof {
        assert(v@ =~= lit_issuer());
    }
    v
}

/// The byte string `mimo-client`.
pub open spec fn lit_audience() -> Seq<u8> {
    seq![109, 105, 109, 111, 45, 99, 108, 105, 101, 110, 116]
}

/// Returns the bytes of the same literal.
pub fn lit_audience_vec() -> (v: Vec<u8>)
    ensures
        v@ == lit_audience(),
{
    let mut v: Vec<u8> = Vec::new();
    v.push(109);
    v.push(105);
    v.push(109);
    v.push(111);
    v.push(45);
    v.push(99);
    v.push(108);
    v.push(105);
    v.push(101);
    v.push(110);
    v.push(116);
    proof {
        assert(v@ =~= lit_audience());
    }
    v
}


/// The JSON enum name of a purpose.
pub open spec fn typ_name(t: TokenType) -> Seq<u8> {
    match t {
        TokenType::Refresh => lit_name_refresh(),
        TokenType::Access => lit_name_access(),
        TokenType::Registration => lit_name_registration(),
        TokenType::PasswordReset => lit_name_password_reset(),
    }
}

/// The purpose a JSON enum name denotes, if any.
pub open spec fn typ_of_name(nm: Seq<u8>) -> Option<TokenType> {
    if nm == lit_name_refresh() {
        Some(TokenType::Refresh)
    } else if nm == lit_name_access() {
        Some(TokenType::Access)
    } else if nm == lit_name_registration() {
        Some(TokenType::Registration)
    } else if nm == lit_name_password_reset() {
        Some(TokenType::PasswordReset)
    } else {
        None
    }
}

/// The JSON enum name of a role.
pub open spec fn role_name(r: Role) -> Seq<u8> {
    match r {
        Role::EditMemo => lit_role_edit_memo(),
        Role::ViewMemo => lit_role_view_memo(),
        Role::SummarizeMemo => lit_role_summarize_memo(),
        Role::EditTag => lit_role_edit_tag(),
        Role::EditAccount => lit_role_edit_account(),
        Role::DeleteAccount => lit_role_delete_account(),
        Role::ResetPassword => lit_role_reset_password(),
    }
}

/// The role a JSON enum name denotes, if any.
pub open spec fn role_of_name(nm: Seq<u8>) -> Option<Role> {
    if nm == lit_role_edit_memo() {
        Some(Role::EditMemo)
    } else if nm == lit_role_view_memo() {
        Some(Role::ViewMemo)
    } else if nm == lit_role_summarize_memo() {
        Some(Role::SummarizeMemo)
    } else if nm == lit_role_edit_tag() {
        Some(Role::EditTag)
    } else if nm == lit_role_edit_account() {
        Some(Role::EditAccount)
    } else if nm == lit_role_delete_account() {
        Some(Role::DeleteAccount)
    } else if nm == lit_role_reset_password() {
        Some(Role::ResetPassword)
    } else {
        None
    }
}

/// Mapping a purpose to its name and back is the identity, and the name is
/// a safe JSON string.
pub proof fn lemma_typ_name_inverse(t: TokenType)
    ensures
        typ_of_name(typ_name(t)) == Some(t),
        json_safe(typ_name(t)),
{
    match t {
        TokenType::Refresh => {},
        TokenType::Access => {
            assert(lit_name_access().len() != lit_name_refresh().len());
        },
        TokenType::Registration => {
            assert(lit_name_registration().len() != lit_name_refresh().len());
            assert(lit_name_registration().len() != lit_name_access().len());
        },
        TokenType::PasswordReset => {
            assert(lit_name_password_reset().len() != lit_name_refresh().len());
            assert(lit_name_password_reset().len() != lit_name_access().len());
            assert(lit_name_password_reset().len() != lit_name_registration().len());
        },
    }
}

/// Mapping a role to its name and back is the identity, and the name is a
/// safe JSON string.
pub proof fn lemma_role_name_inverse(r: Role)
    ensures
        role_of_name(role_name(r)) == Some(r),
        json_safe(role_name(r)),
{
    match r {
        Role::EditMemo => {},
        Role::ViewMemo => {
            assert(lit_role_view_memo()[0] != lit_role_edit_memo()[0]);
        },
        Role::SummarizeMemo => {},
        Role::EditTag => {},
        Role::EditAccount => {},
        Role::DeleteAccount => {
            assert(lit_role_delete_account()[0] != lit_role_summarize_memo()[0]);
        },
        Role::ResetPassword => {
            assert(lit_role_reset_password()[0] != lit_role_summarize_memo()[0]);
            assert(lit_role_reset_password()[0] != lit_role_delete_account()[0]);
        },
    }
}

/// The JSON of a non-empty role list, without the surrounding brackets:
/// quoted names separated by commas.
pub open spec fn spec_roles_items(rs: Seq<Role>) -> Seq<u8>
    decreases rs.len(),
{
    if rs.len() == 0 {
        Seq::<u8>::empty()
    } else if rs.len() == 1 {
        seq![34u8] + role_name(rs[0]) + seq![34u8]
    } else {
        seq![34u8] + role_name(rs[0]) + seq![34u8, 44u8] + spec_roles_items(rs.skip(1))
    }
}

/// The JSON of the role field's value: `null` when absent, else the array.
pub open spec fn spec_role_field(role: Option<Seq<Role>>) -> Seq<u8> {
    match role {
        None => lit_null(),
        Some(rs) => seq![91u8] + spec_roles_items(rs) + seq![93u8],
    }
}

/// The front of the payload: the three quoted string fields.
pub open spec fn payload_front(c: ClaimData) -> Seq<u8> {
    lit_head_iss() + c.iss + seq![34u8] + lit_mid_aud() + c.aud + seq![34u8] + lit_mid_sub()
        + c.sub + seq![34u8]
}

/// The middle of the payload: the three numeric fields.
pub open spec fn payload_nums(c: ClaimData) -> Seq<u8> {
    lit_mid_iat() + spec_dec(c.iat) + lit_mid_nbf() + spec_dec(c.nbf) + lit_mid_exp() + spec_dec(
        c.exp,
    )
}

/// The tail of the payload: credential id, purpose, role field, brace.
pub open spec fn payload_tail(c: ClaimData) -> Seq<u8> {
    lit_mid_jti() + c.jti + seq![34u8] + lit_mid_typ() + typ_name(c.typ) + seq![34u8]
        + lit_mid_role() + spec_role_field(c.role) + seq![125u8]
}

/// The canonical JSON payload of a claim bundle.  Field order is fixed;
/// string values embed unescaped; times are plain decimals.  Opaque: proofs
/// reveal it only where the payload's structure itself is at issue.
#[verifier::opaque]
pub open spec fn spec_payload(c: ClaimData) -> Seq<u8> {
    payload_front(c) + payload_nums(c) + payload_tail(c)
}

/// The literal `lit` sits in `s` at `pos`.
pub open spec fn lit_at(s: Seq<u8>, pos: int, lit: Seq<u8>) -> bool {
    &&& 0 <= pos
    &&& pos + lit.len() <= s.len()
    &&& s.subrange(pos, pos + lit.len()) == lit
}

/// Scans a JSON string body starting at `pos` up to its closing quote.
/// Rejects backslashes (the canonical form never escapes) and non-ASCII
/// bytes.  Returns the body and the position after the closing quote.
pub open spec fn scan_str(s: Seq<u8>, pos: int) -> Option<(Seq<u8>, int)>
    decreases s.len() - pos,
{
    if pos < 0 || pos >= s.len() {
        None
    } else if s[pos] == 34 {
        Some((Seq::<u8>::empty(), pos + 1))
    } else if s[pos] == 92 || s[pos] >= 128 {
        None
    } else {
        match scan_str(s, pos + 1) {
            Some((t, e)) => Some((seq![s[pos]] + t, e)),
            None => None,
        }
    }
}

/// A successful scan yields a safe body lying between `pos` and the
/// returned position.
pub proof fn lemma_scan_str_props(s: Seq<u8>, pos: int)
    requires
        scan_str(s, pos) is Some,
    ensures
        ({
            let (t, e) = scan_str(s, pos)->Some_0;
            &&& pos < e <= s.len()
            &&& t.len() == e - pos - 1
            &&& json_safe(t)
        }),
    decreases s.len() - pos,
{
    if 0 <= pos < s.len() && s[pos] != 34 && s[pos] != 92 && s[pos] < 128 {
        lemma_scan_str_props(s, pos + 1);
    }
}

/// Scanning reads back exactly the safe body written before a quote.
pub proof fn lemma_scan_str_at(s: Seq<u8>, pos: int, body: Seq<u8>)
    requires
        0 <= pos,
        pos + body.len() + 1 <= s.len(),
        s.subrange(pos, pos + body.len()) == body,
        s[pos + body.len()] == 34,
        json_safe(body),
    ensures
        scan_str(s, pos) == Some((body, pos + body.len() + 1)),
    decreases body.len(),
{
    if body.len() == 0 {
        assert(s[pos] == 34);
        assert(body =~= Seq::<u8>::empty());
    } else {
        assert(s[pos] == body[0]);
        assert(body[0] != 34 && body[0] != 92 && body[0] < 128);
        assert(s.subrange(pos + 1, pos + 1 + (body.len() - 1)) =~= body.skip(1));
        assert(json_safe(body.skip(1)));
        lemma_scan_str_at(s, pos + 1, body.skip(1));
        assert(seq![s[pos]] + body.skip(1) =~= body);
    }
}

/// Parses the items of a non-empty role array after its opening bracket:
/// quoted role names separated by commas, ended by the closing bracket.
pub open spec fn spec_parse_roles_items(s: Seq<u8>, pos: int) -> Option<(Seq<Role>, int)>
    decreases s.len() - pos,
{
    if !(0 <= pos < s.len() && s[pos] == 34) {
        None
    } else {
        match scan_str(s, pos + 1) {
            Some((nm, e)) => match role_of_name(nm) {
                Some(r) => {
                    if e < s.len() && s[e] == 44 && pos < e {
                        match spec_parse_roles_items(s, e + 1) {
                            Some((rest, e2)) => Some((seq![r] + rest, e2)),
                            None => None,
                        }
                    } else if e < s.len() && s[e] == 93 {
                        Some((seq![r], e + 1))
                    } else {
                        None
                    }
                },
                None => None,
            },
            None => None,
        }
    }
}

/// Parsing reads back exactly a written role list followed by `]`.
pub proof fn lemma_roles_items_at(s: Seq<u8>, pos: int, rs: Seq<Role>)
    requires
        rs.len() >= 1,
        0 <= pos,
        pos + spec_roles_items(rs).len() + 1 <= s.len(),
        s.subrange(pos, pos + spec_roles_items(rs).len()) == spec_roles_items(rs),
        s[pos + spec_roles_items(rs).len()] == 93,
    ensures
        spec_parse_roles_items(s, pos) == Some((rs, pos + spec_roles_items(rs).len() + 1)),
    decreases rs.len(),
{
    let items = spec_roles_items(rs);
    let nm = role_name(rs[0]);
    let l = items.len() as int;
    lemma_role_name_inverse(rs[0]);
    assert forall|j: int| 0 <= j < l implies s[pos + j] == items[j] by {
        assert(s.subrange(pos, pos + l)[j] == items[j]);
    }
    assert(items[0] == 34);
    if rs.len() == 1 {
        assert(s.subrange(pos + 1, pos + 1 + nm.len() as int) =~= nm) by {
            assert forall|i: int| 0 <= i < nm.len() implies s.subrange(
                pos + 1,
                pos + 1 + nm.len() as int,
            )[i] == nm[i] by {
                assert(s[pos + 1 + i] == items[1 + i]);
                assert(items[1 + i] == nm[i]);
            }
        }
        assert(s[pos + 1 + nm.len() as int] == items[1 + nm.len() as int]);
        assert(items[1 + nm.len() as int] == 34);
        lemma_scan_str_at(s, pos + 1, nm);
        let e = pos + nm.len() + 2;
        assert(s[e] == 93);
        assert(seq![rs[0]] =~= rs);
    } else {
        assert(s.subrange(pos + 1, pos + 1 + nm.len() as int) =~= nm) by {
            assert forall|i: int| 0 <= i < nm.len() implies s.subrange(
                pos + 1,
                pos + 1 + nm.len() as int,
            )[i] == nm[i] by {
                assert(s[pos + 1 + i] == items[1 + i]);
                assert(items[1 + i] == nm[i]);
            }
        }
        assert(s[pos + 1 + nm.len() as int] == items[1 + nm.len() as int]);
        assert(items[1 + nm.len() as int] == 34);
        lemma_scan_str_at(s, pos + 1, nm);
        let e = pos + nm.len() + 2;
        assert(s[e] == items[nm.len() as int + 2]);
        assert(items[nm.len() as int + 2] == 44);
        let inner = spec_roles_items(rs.skip(1));
        assert(items.len() == nm.len() + 3 + inner.len());
        assert(s.subrange(e + 1, e + 1 + inner.len() as int) =~= inner) by {
            assert forall|i: int| 0 <= i < inner.len() implies s.subrange(
                e + 1,
                e + 1 + inner.len() as int,
            )[i] == inner[i] by {
                assert(s[e + 1 + i] == items[nm.len() as int + 3 + i]);
                assert(items[nm.len() as int + 3 + i] == inner[i]);
            }
        }
        assert(s[e + 1 + inner.len() as int] == 93);
        lemma_roles_items_at(s, e + 1, rs.skip(1));
        assert(seq![rs[0]] + rs.skip(1) =~= rs);
    }
}

/// Parses the role field's value: `null`, the empty array, or a non-empty
/// array of role names.
pub open spec fn spec_parse_role_field(s: Seq<u8>, pos: int) -> Option<(Option<Seq<Role>>, int)> {
    if lit_at(s, pos, lit_null()) {
        Some((None, pos + 4))
    } else if 0 <= pos && pos + 1 < s.len() && s[pos] == 91 {
        if s[pos + 1] == 93 {
            Some((Some(Seq::<Role>::empty()), pos + 2))
        } else {
            match spec_parse_roles_items(s, pos + 1) {
                Some((rs, e)) => Some((Some(rs), e)),
                None => None,
            }
        }
    } else {
        None
    }
}

/// Parses the canonical payload whole; `None` is a rejection.  Accepts
/// exactly the strings `spec_payload` produces from well-formed bundles.
pub open spec fn spec_parse_payload(s: Seq<u8>) -> Option<ClaimData> {
    if !lit_at(s, 0, lit_head_iss()) {
        None
    } else {
        match scan_str(s, lit_head_iss().len() as int) {
            None => None,
            Some((iss, q1)) => if !lit_at(s, q1, lit_mid_aud()) {
                None
            } else {
                match scan_str(s, q1 + lit_mid_aud().len()) {
                    None => None,
                    Some((aud, q2)) => if !lit_at(s, q2, lit_mid_sub()) {
                        None
                    } else {
                        match scan_str(s, q2 + lit_mid_sub().len()) {
                            None => None,
                            Some((sub, q3)) => if !lit_at(s, q3, lit_mid_iat()) {
                                None
                            } else {
                                match spec_parse_u64(s, q3 + lit_mid_iat().len()) {
                                    None => None,
                                    Some((iat, q4)) => if !lit_at(s, q4, lit_mid_nbf()) {
                                        None
                                    } else {
                                        match spec_parse_u64(s, q4 + lit_mid_nbf().len()) {
                                            None => None,
                                            Some((nbf, q5)) => if !lit_at(s, q5, lit_mid_exp()) {
                                                None
                                            } else {
                                                match spec_parse_u64(s, q5 + lit_mid_exp().len()) {
                                                    None => None,
                                                    Some((exp, q6)) => if !lit_at(
                                                        s,
                                                        q6,
                                                        lit_mid_jti(),
                                                    ) {
                                                        None
                                                    } else {
                                                        spec_parse_payload_tail(
                                                            s,
                                                            q6 + lit_mid_jti().len(),
                                                            iss,
                                                            aud,
                                                            sub,
                                                            iat,
                                                            nbf,
                                                            exp,
                                                        )
                                                    },
                                                }
                                            },
                                        }
                                    },
                                }
                            },
                        }
                    },
                }
            },
        }
    }
}

/// The tail of the payload parse: jti, purpose, role field, closing brace.
pub open spec fn spec_parse_payload_tail(
    s: Seq<u8>,
    pos: int,
    iss: Seq<u8>,
    aud: Seq<u8>,
    sub: Seq<u8>,
    iat: u64,
    nbf: u64,
    exp: u64,
) -> Option<ClaimData> {
    match scan_str(s, pos) {
        None => None,
        Some((jti, q7)) => if !lit_at(s, q7, lit_mid_typ()) {
            None
        } else {
            match scan_str(s, q7 + lit_mid_typ().len()) {
                None => None,
                Some((tn, q8)) => match typ_of_name(tn) {
                    None => None,
                    Some(typ) => if !lit_at(s, q8, lit_mid_role()) {
                        None
                    } else {
                        match spec_parse_role_field(s, q8 + lit_mid_role().len()) {
                            None => None,
                            Some((role, q9)) => if q9 + 1 == s.len() && q9 < s.len() && s[q9]
                                == 125 {
                                Some(ClaimData { iss, aud, sub, iat, nbf, exp, jti, typ, role })
                            } else {
                                None
                            },
                        }
                    },
                },
            }
        },
    }
}


/// The view of an optional role vector.
pub open spec fn opt_roles_view(o: Option<Vec<Role>>) -> Option<Seq<Role>> {
    match o {
        Some(v) => Some(v@),
        None => None,
    }
}

fn push_typ_name(out: &mut Vec<u8>, t: TokenType)
    ensures
        final(out)@ == old(out)@ + typ_name(t),
{
    let mut f = match t {
        TokenType::Refresh => lit_name_refresh_vec(),
        TokenType::Access => lit_name_access_vec(),
        TokenType::Registration => lit_name_registration_vec(),
        TokenType::PasswordReset => lit_name_password_reset_vec(),
    };
    out.append(&mut f);
}

fn push_role_name(out: &mut Vec<u8>, r: Role)
    ensures
        final(out)@ == old(out)@ + role_name(r),
{
    let mut f = match r {
        Role::EditMemo => lit_role_edit_memo_vec(),
        Role::ViewMemo => lit_role_view_memo_vec(),
        Role::SummarizeMemo => lit_role_summarize_memo_vec(),
        Role::EditTag => lit_role_edit_tag_vec(),
        Role::EditAccount => lit_role_edit_account_vec(),
        Role::DeleteAccount => lit_role_delete_account_vec(),
        Role::ResetPassword => lit_role_reset_password_vec(),
    };
    out.append(&mut f);
}

fn push_roles_items(out: &mut Vec<u8>, roles: &Vec<Role>, idx: usize)
    requires
        idx < roles@.len(),
    ensures
        final(out)@ == old(out)@ + spec_roles_items(roles@.skip(idx as int)),
    decreases roles@.len() - idx,
{
    out.push(34);
    push_role_name(out, roles[idx]);
    out.push(34);
    proof {
        assert(roles@.skip(idx as int)[0] == roles@[idx as int]);
    }
    if idx < roles.len() - 1 {
        out.push(44);
        push_roles_items(out, roles, idx + 1);
        proof {
            assert(roles@.skip(idx as int).skip(1) =~= roles@.skip(idx as int + 1));
            assert(out@ =~= old(out)@ + spec_roles_items(roles@.skip(idx as int)));
        }
    } else {
        proof {
            assert(roles@.skip(idx as int).len() == 1);
            assert(out@ =~= old(out)@ + spec_roles_items(roles@.skip(idx as int)));
        }
    }
}

/// Renders the canonical JSON payload of a claim bundle.
pub fn emit_payload(c: &JwtClaim) -> (out: Vec<u8>)
    ensures
        out@ == spec_payload(c@),
{
    let mut out: Vec<u8> = Vec::new();
    let mut f = lit_head_iss_vec();
    out.append(&mut f);
    crate::bytes::push_all(&mut out, c.iss.as_slice());
    out.push(34);
    let mut f = lit_mid_aud_vec();
    out.append(&mut f);
    crate::bytes::push_all(&mut out, c.aud.as_slice());
    out.push(34);
    let mut f = lit_mid_sub_vec();
    out.append(&mut f);
    crate::bytes::push_all(&mut out, c.sub.as_slice());
    out.push(34);
    proof {
        reveal(spec_payload);
        assert(out@ =~= payload_front(c@));
    }
    let ghost g_front = out@;
    let mut f = lit_mid_iat_vec();
    out.append(&mut f);
    push_u64_dec(&mut out, c.iat);
    let mut f = lit_mid_nbf_vec();
    out.append(&mut f);
    push_u64_dec(&mut out, c.nbf);
    let mut f = lit_mid_exp_vec();
    out.append(&mut f);
    push_u64_dec(&mut out, c.exp);
    proof {
        assert(out@ =~= g_front + payload_nums(c@));
    }
    let ghost g_nums = out@;
    let mut f = lit_mid_jti_vec();
    out.append(&mut f);
    crate::bytes::push_all(&mut out, c.jti.as_slice());
    out.push(34);
    let mut f = lit_mid_typ_vec();
    out.append(&mut f);
    push_typ_name(&mut out, c.typ);
    out.push(34);
    let mut f = lit_mid_role_vec();
    out.append(&mut f);
    match &c.role {
        None => {
            let mut f = lit_null_vec();
            out.append(&mut f);
        },
        Some(rs) => {
            out.push(91);
            if rs.len() > 0 {
                push_roles_items(&mut out, rs, 0);
                proof {
                    assert(rs@.skip(0) =~= rs@);
                }
            } else {
                proof {
                    assert(spec_roles_items(rs@) =~= Seq::<u8>::empty());
                }
            }
            out.push(93);
        },
    }
    out.push(125);
    proof {
        reveal(spec_payload);
        assert(out@ =~= g_nums + payload_tail(c@));
        assert(out@ =~= spec_payload(c@));
    }
    out
}

/// Consumes the literal `lit` at `pos`, if it is there.
pub fn eat(s: &[u8], pos: usize, lit: &[u8]) -> (r: Option<usize>)
    requires
        pos <= s@.len(),
    ensures
        r matches Some(e) ==> lit_at(s@, pos as int, lit@) && e == pos + lit@.len() && e
            <= s@.len(),
        r is None ==> !lit_at(s@, pos as int, lit@),
{
    let n = s.len();
    let l = lit.len();
    if n - pos < l {
        return None;
    }
    let mut i: usize = 0;
    while i < l
        invariant
            i <= l == lit@.len(),
            pos + l <= n == s@.len(),
            forall|k: int| 0 <= k < i ==> s@[pos + k] == lit@[k],
        decreases l - i,
    {
        if s[pos + i] != lit[i] {
            proof {
                if lit_at(s@, pos as int, lit@) {
                    assert(s@.subrange(pos as int, pos + lit@.len())[i as int] == lit@[i as int]);
                    assert(false);
                }
            }
            return None;
        }
        i += 1;
    }
    proof {
        assert(s@.subrange(pos as int, pos + lit@.len()) =~= lit@);
    }
    Some(pos + l)
}

/// Scans a JSON string body up to its closing quote, as `scan_str` admits.
pub fn scan_string(s: &[u8], pos: usize) -> (r: Option<(Vec<u8>, usize)>)
    requires
        pos <= s@.len(),
    ensures
        match scan_str(s@, pos as int) {
            Some(t) => r matches Some(v) && v.0@ == t.0 && v.1 == t.1 && pos < v.1 <= s@.len(),
            None => r is None,
        },
{
    let n = s.len();
    let mut out: Vec<u8> = Vec::new();
    let mut i: usize = pos;
    proof {
        if scan_str(s@, pos as int) is Some {
            let (t, e) = scan_str(s@, pos as int)->Some_0;
            assert(out@ + t =~= t);
        }
    }
    while i < n
        invariant
            pos <= i <= n == s@.len(),
            match scan_str(s@, i as int) {
                Some(t) => (match scan_str(s@, pos as int) {
                    Some(t0) => t0.0 == out@ + t.0 && t0.1 == t.1,
                    None => false,
                }),
                None => scan_str(s@, pos as int) is None,
            },
        decreases n - i,
    {
        let b = s[i];
        if b == 34 {
            proof {
                assert(out@ + Seq::<u8>::empty() =~= out@);
                lemma_scan_str_props(s@, pos as int);
            }
            return Some((out, i + 1));
        }
        if b == 92 || b >= 128 {
            return None;
        }
        let ghost out0 = out@;
        out.push(b);
        proof {
            if scan_str(s@, i as int + 1) is Some {
                let (t, e) = scan_str(s@, i as int + 1)->Some_0;
                assert(out0 + (seq![b] + t) =~= out@ + t);
            }
        }
        i += 1;
    }
    None
}

/// Maps a scanned name to its purpose, as `typ_of_name` does.
fn typ_of(nm: &[u8]) -> (r: Option<TokenType>)
    ensures
        r == typ_of_name(nm@),
{
    let v = lit_name_refresh_vec();
    if crate::bytes::bytes_eq(nm, v.as_slice()) {
        return Some(TokenType::Refresh);
    }
    let v = lit_name_access_vec();
    if crate::bytes::bytes_eq(nm, v.as_slice()) {
        return Some(TokenType::Access);
    }
    let v = lit_name_registration_vec();
    if crate::bytes::bytes_eq(nm, v.as_slice()) {
        return Some(TokenType::Registration);
    }
    let v = lit_name_password_reset_vec();
    if crate::bytes::bytes_eq(nm, v.as_slice()) {
        return Some(TokenType::PasswordReset);
    }
    None
}

/// Maps a scanned name to its role, as `role_of_name` does.
fn role_of(nm: &[u8]) -> (r: Option<Role>)
    ensures
        r == role_of_name(nm@),
{
    let v = lit_role_edit_memo_vec();
    if crate::bytes::bytes_eq(nm, v.as_slice()) {
        return Some(Role::EditMemo);
    }
    let v = lit_role_view_memo_vec();
    if crate::bytes::bytes_eq(nm, v.as_slice()) {
        return Some(Role::ViewMemo);
    }
    let v = lit_role_summarize_memo_vec();
    if crate::bytes::bytes_eq(nm, v.as_slice()) {
        return Some(Role::SummarizeMemo);
    }
    let v = lit_role_edit_tag_vec();
    if crate::bytes::bytes_eq(nm, v.as_slice()) {
        return Some(Role::EditTag);
    }
    let v = lit_role_edit_account_vec();
    if crate::bytes::bytes_eq(nm, v.as_slice()) {
        return Some(Role::EditAccount);
    }
    let v = lit_role_delete_account_vec();
    if crate::bytes::bytes_eq(nm, v.as_slice()) {
        return Some(Role::DeleteAccount);
    }
    let v = lit_role_reset_password_vec();
    if crate::bytes::bytes_eq(nm, v.as_slice()) {
        return Some(Role::ResetPassword);
    }
    None
}

/// Parses the items of a non-empty role array, as
/// `spec_parse_roles_items` admits.
fn parse_roles_items(s: &[u8], pos: usize) -> (r: Option<(Vec<Role>, usize)>)
    requires
        pos <= s@.len(),
    ensures
        match spec_parse_roles_items(s@, pos as int) {
            Some(v) => r matches Some(p) && p.0@ == v.0 && p.1 == v.1 && p.1 <= s@.len(),
            None => r is None,
        },
{
    let n = s.len();
    let mut acc: Vec<Role> = Vec::new();
    let mut i: usize = pos;
    proof {
        if spec_parse_roles_items(s@, pos as int) is Some {
            let (t, e) = spec_parse_roles_items(s@, pos as int)->Some_0;
            assert(acc@ + t =~= t);
        }
    }
    while i < n
        invariant
            pos <= i <= n == s@.len(),
            match spec_parse_roles_items(s@, i as int) {
                Some(v) => (match spec_parse_roles_items(s@, pos as int) {
                    Some(v0) => v0.0 == acc@ + v.0 && v0.1 == v.1,
                    None => false,
                }),
                None => spec_parse_roles_items(s@, pos as int) is None,
            },
        decreases n - i,
    {
        if s[i] != 34 {
            return None;
        }
        let (nm, e) = match scan_string(s, i + 1) {
            Some(v) => v,
            None => {
                return None;
            },
        };
        proof {
            lemma_scan_str_props(s@, i as int + 1);
        }
        let role = match role_of(nm.as_slice()) {
            Some(v) => v,
            None => {
                return None;
            },
        };
        if e < n && s[e] == 44 {
            let ghost acc0 = acc@;
            acc.push(role);
            proof {
                if spec_parse_roles_items(s@, e as int + 1) is Some {
                    let (t, e2) = spec_parse_roles_items(s@, e as int + 1)->Some_0;
                    assert(acc0 + (seq![role] + t) =~= acc@ + t);
                }
            }
            i = e + 1;
        } else if e < n && s[e] == 93 {
            let ghost acc0 = acc@;
            acc.push(role);
            proof {
                assert(acc0 + seq![role] =~= acc@);
            }
            return Some((acc, e + 1));
        } else {
            return None;
        }
    }
    None
}

/// Parses the role field's value, as `spec_parse_role_field` admits.
fn parse_role_field(s: &[u8], pos: usize) -> (r: Option<(Option<Vec<Role>>, usize)>)
    requires
        pos <= s@.len(),
    ensures
        match spec_parse_role_field(s@, pos as int) {
            Some(v) => r matches Some(p) && opt_roles_view(p.0) == v.0 && p.1 == v.1 && p.1
                <= s@.len(),
            None => r is None,
        },
{
    let n = s.len();
    let lnull = lit_null_vec();
    match eat(s, pos, lnull.as_slice()) {
        Some(e) => {
            return Some((None, e));
        },
        None => {},
    }
    if pos < n && pos + 1 < n && s[pos] == 91 {
        if s[pos + 1] == 93 {
            let empty_roles: Vec<Role> = Vec::new();
            proof {
                assert(empty_roles@ =~= Seq::<Role>::empty());
            }
            return Some((Some(empty_roles), pos + 2));
        }
        match parse_roles_items(s, pos + 1) {
            Some((rs, e)) => {
                return Some((Some(rs), e));
            },
            None => {
                return None;
            },
        }
    }
    None
}

/// Parses a canonical payload whole, as `spec_parse_payload` admits.
pub fn parse_payload(s: &[u8]) -> (r: Option<JwtClaim>)
    ensures
        match spec_parse_payload(s@) {
            Some(cd) => r matches Some(c) && c@ == cd,
            None => r is None,
        },
{
    let lit = lit_head_iss_vec();
    let p0 = match eat(s, 0, lit.as_slice()) {
        Some(e) => e,
        None => {
            return None;
        },
    };
    let (iss, q1) = match scan_string(s, p0) {
        Some(v) => v,
        None => {
            return None;
        },
    };
    let lit = lit_mid_aud_vec();
    let p1 = match eat(s, q1, lit.as_slice()) {
        Some(e) => e,
        None => {
            return None;
        },
    };
    let (aud, q2) = match scan_string(s, p1) {
        Some(v) => v,
        None => {
            return None;
        },
    };
    let lit = lit_mid_sub_vec();
    let p2 = match eat(s, q2, lit.as_slice()) {
        Some(e) => e,
        None => {
            return None;
        },
    };
    let (sub, q3) = match scan_string(s, p2) {
        Some(v) => v,
        None => {
            return None;
        },
    };
    let lit = lit_mid_iat_vec();
    let p3 = match eat(s, q3, lit.as_slice()) {
        Some(e) => e,
        None => {
            return None;
        },
    };
    let (iat, q4) = match parse_u64_dec(s, p3) {
        Some(v) => v,
        None => {
            return None;
        },
    };
    let lit = lit_mid_nbf_vec();
    let p4 = match eat(s, q4, lit.as_slice()) {
        Some(e) => e,
        None => {
            return None;
        },
    };
    let (nbf, q5) = match parse_u64_dec(s, p4) {
        Some(v) => v,
        None => {
            return None;
        },
    };
    let lit = lit_mid_exp_vec();
    let p5 = match eat(s, q5, lit.as_slice()) {
        Some(e) => e,
        None => {
            return None;
        },
    };
    let (exp, q6) = match parse_u64_dec(s, p5) {
        Some(v) => v,
        None => {
            return None;
        },
    };
    let lit = lit_mid_jti_vec();
    let p6 = match eat(s, q6, lit.as_slice()) {
        Some(e) => e,
        None => {
            return None;
        },
    };
    let (jti, q7) = match scan_string(s, p6) {
        Some(v) => v,
        None => {
            return None;
        },
    };
    let lit = lit_mid_typ_vec();
    let p7 = match eat(s, q7, lit.as_slice()) {
        Some(e) => e,
        None => {
            return None;
        },
    };
    let (tn, q8) = match scan_string(s, p7) {
        Some(v) => v,
        None => {
            return None;
        },
    };
    let typ = match typ_of(tn.as_slice()) {
        Some(t) => t,
        None => {
            return None;
        },
    };
    let lit = lit_mid_role_vec();
    let p8 = match eat(s, q8, lit.as_slice()) {
        Some(e) => e,
        None => {
            return None;
        },
    };
    let (role, q9) = match parse_role_field(s, p8) {
        Some(v) => v,
        None => {
            return None;
        },
    };
    if q9 < s.len() && q9 + 1 == s.len() && s[q9] == 125 {
        Some(JwtClaim { iss, aud, sub, iat, nbf, exp, jti, typ, role })
    } else {
        None
    }
}

/// Offsets of the pieces of the canonical payload: start and end of each
/// scanned or parsed field.  `end_*` is the position right after the field
/// and its closing quote, where one exists.
pub open spec fn end_iss(c: ClaimData) -> int {
    8 + c.iss.len() as int + 1
}

pub open spec fn pos_aud(c: ClaimData) -> int {
    end_iss(c) + 8
}

pub open spec fn end_aud(c: ClaimData) -> int {
    pos_aud(c) + c.aud.len() as int + 1
}

pub open spec fn pos_sub(c: ClaimData) -> int {
    end_aud(c) + 8
}

pub open spec fn end_sub(c: ClaimData) -> int {
    pos_sub(c) + c.sub.len() as int + 1
}

pub open spec fn pos_iat(c: ClaimData) -> int {
    end_sub(c) + 7
}

pub open spec fn end_iat(c: ClaimData) -> int {
    pos_iat(c) + spec_dec(c.iat).len() as int
}

pub open spec fn pos_nbf(c: ClaimData) -> int {
    end_iat(c) + 7
}

pub open spec fn end_nbf(c: ClaimData) -> int {
    pos_nbf(c) + spec_dec(c.nbf).len() as int
}

pub open spec fn pos_exp(c: ClaimData) -> int {
    end_nbf(c) + 7
}

pub open spec fn end_exp(c: ClaimData) -> int {
    pos_exp(c) + spec_dec(c.exp).len() as int
}

pub open spec fn pos_jti(c: ClaimData) -> int {
    end_exp(c) + 8
}

pub open spec fn end_jti(c: ClaimData) -> int {
    pos_jti(c) + c.jti.len() as int + 1
}

pub open spec fn pos_typ(c: ClaimData) -> int {
    end_jti(c) + 8
}

pub open spec fn end_typ(c: ClaimData) -> int {
    pos_typ(c) + typ_name(c.typ).len() as int + 1
}

pub open spec fn pos_role(c: ClaimData) -> int {
    end_typ(c) + 8
}

pub open spec fn end_role(c: ClaimData) -> int {
    pos_role(c) + spec_role_field(c.role).len() as int
}

/// The string fields at the front of the payload parse back exactly.
#[verifier::rlimit(100)]
proof fn lemma_payload_rt_strings(c: ClaimData)
    requires
        claim_wf(c),
    ensures
        spec_payload(c).len() == end_role(c) + 1,
        lit_at(spec_payload(c), 0, lit_head_iss()),
        scan_str(spec_payload(c), 8) == Some((c.iss, end_iss(c))),
        lit_at(spec_payload(c), end_iss(c), lit_mid_aud()),
        scan_str(spec_payload(c), pos_aud(c)) == Some((c.aud, end_aud(c))),
        lit_at(spec_payload(c), end_aud(c), lit_mid_sub()),
        scan_str(spec_payload(c), pos_sub(c)) == Some((c.sub, end_sub(c))),
        lit_at(spec_payload(c), end_sub(c), lit_mid_iat()),
{
    reveal(spec_payload);
    let s = spec_payload(c);
    assert(lit_at(s, 0, lit_head_iss())) by {
        assert(s.subrange(0, 8) =~= lit_head_iss());
    }
    assert(s.subrange(8, 8 + c.iss.len() as int) =~= c.iss);
    assert(s[8 + c.iss.len() as int] == 34);
    lemma_scan_str_at(s, 8, c.iss);
    assert(lit_at(s, end_iss(c), lit_mid_aud())) by {
        assert(s.subrange(end_iss(c), end_iss(c) + 8) =~= lit_mid_aud());
    }
    assert(s.subrange(pos_aud(c), pos_aud(c) + c.aud.len() as int) =~= c.aud);
    assert(s[pos_aud(c) + c.aud.len() as int] == 34);
    lemma_scan_str_at(s, pos_aud(c), c.aud);
    assert(lit_at(s, end_aud(c), lit_mid_sub())) by {
        assert(s.subrange(end_aud(c), end_aud(c) + 8) =~= lit_mid_sub());
    }
    assert(s.subrange(pos_sub(c), pos_sub(c) + c.sub.len() as int) =~= c.sub);
    assert(s[pos_sub(c) + c.sub.len() as int] == 34);
    lemma_scan_str_at(s, pos_sub(c), c.sub);
    assert(lit_at(s, end_sub(c), lit_mid_iat())) by {
        assert(s.subrange(end_sub(c), end_sub(c) + 7) =~= lit_mid_iat());
    }
}

/// The three numeric fields parse back exactly.
#[verifier::rlimit(100)]
proof fn lemma_payload_rt_numbers(c: ClaimData)
    requires
        claim_wf(c),
    ensures
        spec_parse_u64(spec_payload(c), pos_iat(c)) == Some((c.iat, end_iat(c))),
        lit_at(spec_payload(c), end_iat(c), lit_mid_nbf()),
        spec_parse_u64(spec_payload(c), pos_nbf(c)) == Some((c.nbf, end_nbf(c))),
        lit_at(spec_payload(c), end_nbf(c), lit_mid_exp()),
        spec_parse_u64(spec_payload(c), pos_exp(c)) == Some((c.exp, end_exp(c))),
        lit_at(spec_payload(c), end_exp(c), lit_mid_jti()),
{
    reveal(spec_payload);
    let s = spec_payload(c);
    assert(s.subrange(pos_iat(c), end_iat(c)) =~= spec_dec(c.iat));
    assert(s[end_iat(c)] == 44);
    crate::decimal::lemma_parse_of_dec(s, pos_iat(c), c.iat);
    assert(lit_at(s, end_iat(c), lit_mid_nbf())) by {
        assert(s.subrange(end_iat(c), end_iat(c) + 7) =~= lit_mid_nbf());
    }
    assert(s.subrange(pos_nbf(c), end_nbf(c)) =~= spec_dec(c.nbf));
    assert(s[end_nbf(c)] == 44);
    crate::decimal::lemma_parse_of_dec(s, pos_nbf(c), c.nbf);
    assert(lit_at(s, end_nbf(c), lit_mid_exp())) by {
        assert(s.subrange(end_nbf(c), end_nbf(c) + 7) =~= lit_mid_exp());
    }
    assert(s.subrange(pos_exp(c), end_exp(c)) =~= spec_dec(c.exp));
    assert(s[end_exp(c)] == 44);
    crate::decimal::lemma_parse_of_dec(s, pos_exp(c), c.exp);
    assert(lit_at(s, end_exp(c), lit_mid_jti())) by {
        assert(s.subrange(end_exp(c), end_exp(c) + 8) =~= lit_mid_jti());
    }
}

/// The credential id, purpose and role fields parse back exactly, and the
/// payload ends with the closing brace right after them.
#[verifier::rlimit(100)]
proof fn lemma_payload_rt_tail(c: ClaimData)
    requires
        claim_wf(c),
    ensures
        scan_str(spec_payload(c), pos_jti(c)) == Some((c.jti, end_jti(c))),
        lit_at(spec_payload(c), end_jti(c), lit_mid_typ()),
        scan_str(spec_payload(c), pos_typ(c)) == Some((typ_name(c.typ), end_typ(c))),
        typ_of_name(typ_name(c.typ)) == Some(c.typ),
        lit_at(spec_payload(c), end_typ(c), lit_mid_role()),
        spec_parse_role_field(spec_payload(c), pos_role(c)) == Some((c.role, end_role(c))),
        spec_payload(c).len() == end_role(c) + 1,
        spec_payload(c)[end_role(c)] == 125,
{
    reveal(spec_payload);
    let s = spec_payload(c);
    assert(s.subrange(pos_jti(c), pos_jti(c) + c.jti.len() as int) =~= c.jti);
    assert(s[pos_jti(c) + c.jti.len() as int] == 34);
    lemma_scan_str_at(s, pos_jti(c), c.jti);
    assert(lit_at(s, end_jti(c), lit_mid_typ())) by {
        assert(s.subrange(end_jti(c), end_jti(c) + 8) =~= lit_mid_typ());
    }
    lemma_typ_name_inverse(c.typ);
    assert(s.subrange(pos_typ(c), pos_typ(c) + typ_name(c.typ).len() as int) =~= typ_name(c.typ));
    assert(s[pos_typ(c) + typ_name(c.typ).len() as int] == 34);
    lemma_scan_str_at(s, pos_typ(c), typ_name(c.typ));
    assert(lit_at(s, end_typ(c), lit_mid_role())) by {
        assert(s.subrange(end_typ(c), end_typ(c) + 8) =~= lit_mid_role());
    }
    assert(s.subrange(pos_role(c), pos_role(c) + spec_role_field(c.role).len() as int)
        =~= spec_role_field(c.role));
    lemma_role_field_at(s, c.role, pos_role(c));
    assert(s[end_role(c)] == 125);
}

/// The tail parse yields the bundle once the front fields are in place.
#[verifier::rlimit(100)]
proof fn lemma_payload_rt_compose_tail(c: ClaimData)
    requires
        claim_wf(c),
    ensures
        spec_parse_payload_tail(
            spec_payload(c),
            pos_jti(c),
            c.iss,
            c.aud,
            c.sub,
            c.iat,
            c.nbf,
            c.exp,
        ) == Some(c),
{
    lemma_payload_rt_tail(c);
    let s = spec_payload(c);
    assert(scan_str(s, pos_jti(c)) == Some((c.jti, end_jti(c))));
    assert(lit_mid_typ().len() == 8);
    assert(scan_str(s, end_jti(c) + 8) == Some((typ_name(c.typ), end_typ(c))));
    assert(lit_mid_role().len() == 8);
    assert(spec_parse_role_field(s, end_typ(c) + 8) == Some((c.role, end_role(c))));
}

/// The payload codec round-trips: parsing the rendering of a well-formed
/// claim bundle yields exactly that bundle.
#[verifier::rlimit(100)]
pub proof fn lemma_payload_round_trip(c: ClaimData)
    requires
        claim_wf(c),
    ensures
        spec_parse_payload(spec_payload(c)) == Some(c),
{
    lemma_payload_rt_strings(c);
    lemma_payload_rt_numbers(c);
    lemma_payload_rt_compose_tail(c);
    let s = spec_payload(c);
    assert(lit_head_iss().len() == 8);
    assert(lit_mid_aud().len() == 8);
    assert(lit_mid_sub().len() == 8);
    assert(lit_mid_iat().len() == 7);
    assert(lit_mid_nbf().len() == 7);
    assert(lit_mid_exp().len() == 7);
    assert(lit_mid_jti().len() == 8);
    assert(scan_str(s, 8) == Some((c.iss, end_iss(c))));
    assert(scan_str(s, end_iss(c) + 8) == Some((c.aud, end_aud(c))));
    assert(scan_str(s, end_aud(c) + 8) == Some((c.sub, end_sub(c))));
    assert(spec_parse_u64(s, end_sub(c) + 7) == Some((c.iat, end_iat(c))));
    assert(spec_parse_u64(s, end_iat(c) + 7) == Some((c.nbf, end_nbf(c))));
    assert(spec_parse_u64(s, end_nbf(c) + 7) == Some((c.exp, end_exp(c))));
    assert(spec_parse_payload(s) == Some(c));
}

/// Parsing reads back exactly a written role field.
pub proof fn lemma_role_field_at(s: Seq<u8>, role: Option<Seq<Role>>, pos: int)
    requires
        0 <= pos,
        pos + spec_role_field(role).len() + 1 <= s.len(),
        s.subrange(pos, pos + spec_role_field(role).len()) == spec_role_field(role),
    ensures
        (spec_parse_role_field(s, pos) == Some((role, pos + spec_role_field(role).len()))),
{
    if role is None {
        assert(lit_at(s, pos, lit_null())) by {
            assert(s.subrange(pos, pos + 4) =~= lit_null());
        }
    } else {
        lemma_role_field_some(s, role->Some_0, pos);
    }
}

/// The array case of `lemma_role_field_at`.
proof fn lemma_role_field_some(s: Seq<u8>, rs: Seq<Role>, pos: int)
    requires
        0 <= pos,
        pos + spec_role_field(Some(rs)).len() + 1 <= s.len(),
        s.subrange(pos, pos + spec_role_field(Some(rs)).len()) == spec_role_field(Some(rs)),
    ensures
        (spec_parse_role_field(s, pos) == Some(
            (Some(rs), pos + spec_role_field(Some(rs)).len()),
        )),
{
    let f = spec_role_field(Some(rs));
    let l = f.len() as int;
    assert forall|j: int| 0 <= j < l implies s[pos + j] == f[j] by {
        assert(s.subrange(pos, pos + l)[j] == f[j]);
    }
    assert(s[pos + 0] == f[0]);
    assert(s[pos] == 91);
    assert(!lit_at(s, pos, lit_null())) by {
        if lit_at(s, pos, lit_null()) {
            assert(s.subrange(pos, pos + 4)[0] == lit_null()[0]);
            assert(false);
        }
    }
    if rs.len() == 0 {
        assert(s[pos + 1] == f[1]);
        assert(s[pos + 1] == 93);
    } else {
        let items = spec_roles_items(rs);
        assert(items[0] == 34);
        assert(s[pos + 1] == f[1]);
        assert(f[1] == items[0]);
        assert(s[pos + 1] == 34);
        let il = items.len() as int;
        assert(s.subrange(pos + 1, pos + 1 + il) =~= items) by {
            assert forall|i: int| 0 <= i < il implies s.subrange(pos + 1, pos + 1 + il)[i]
                == items[i] by {
                assert(s[pos + (1 + i)] == f[1 + i]);
                assert(s[pos + 1 + i] == f[1 + i]);
                assert(f[1 + i] == items[i]);
            }
        }
        assert(s[pos + (1 + il)] == f[1 + il]);
        assert(f[1 + il] == 93);
        assert(s[pos + 1 + il] == 93);
        lemma_roles_items_at(s, pos + 1, rs);
    }
}


/// Every string field a successful parse yields is a safe JSON string; in
/// particular the subject and credential id are ASCII.
pub proof fn lemma_parse_fields_safe(s: Seq<u8>)
    requires
        spec_parse_payload(s) is Some,
    ensures
        json_safe(spec_parse_payload(s)->Some_0.sub),
        json_safe(spec_parse_payload(s)->Some_0.jti),
{
    assert(lit_head_iss().len() == 8);
    assert(lit_mid_aud().len() == 8);
    assert(lit_mid_sub().len() == 8);
    assert(lit_mid_iat().len() == 7);
    assert(lit_mid_nbf().len() == 7);
    assert(lit_mid_exp().len() == 7);
    assert(lit_mid_jti().len() == 8);
    assert(lit_mid_typ().len() == 8);
    assert(scan_str(s, 8) is Some);
    let (iss, q1) = scan_str(s, 8)->Some_0;
    assert(scan_str(s, q1 + 8) is Some);
    let (aud, q2) = scan_str(s, q1 + 8)->Some_0;
    assert(scan_str(s, q2 + 8) is Some);
    let (sub, q3) = scan_str(s, q2 + 8)->Some_0;
    lemma_scan_str_props(s, q2 + 8);
    assert(spec_parse_u64(s, q3 + 7) is Some);
    let (iat, q4) = spec_parse_u64(s, q3 + 7)->Some_0;
    assert(spec_parse_u64(s, q4 + 7) is Some);
    let (nbf, q5) = spec_parse_u64(s, q4 + 7)->Some_0;
    assert(spec_parse_u64(s, q5 + 7) is Some);
    let (exp, q6) = spec_parse_u64(s, q5 + 7)->Some_0;
    assert(scan_str(s, q6 + 8) is Some);
    let (jti, q7) = scan_str(s, q6 + 8)->Some_0;
    lemma_scan_str_props(s, q6 + 8);
    assert(spec_parse_payload(s)->Some_0.sub == sub);
    assert(spec_parse_payload(s)->Some_0.jti == jti);
}

} // verus!
