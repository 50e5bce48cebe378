//! Permissions: granting one, and executing messages under one.
use vstd::prelude::*;
use vstd::utf8::*;

use crate::coin::{byte_seqs, lemma_text_of_utf8, lemma_utf8_nonempty};
use crate::error::TranslationError;
use crate::msg::{stargate, AdapterAuthzMsg, CanonicalMessage, CanonicalView, SubmissionMsg};
use crate::wire::{
    appended, bufany_parses, decode, lemma_values_appended, lemma_values_concat,
    lemma_values_in_wire, lemma_values_repeated, lemma_wire_ok_appended, lemma_wire_ok_concat,
    lemma_wire_ok_repeated, repeated, repeated_value, text_value, usize_limit, values_at,
    values_in, wire_of, FieldWriter, WireField,
};

verus! {

pub open spec fn exec_url() -> Seq<char> {
    "/cosmos.authz.v1beta1.MsgExec"@
}

pub open spec fn grant_url() -> Seq<char> {
    "/cosmos.authz.v1beta1.MsgGrant"@
}

/// What a grant submission holds.
#[derive(Debug, Clone, PartialEq, Eq)]
pub struct ParseAuthzGrantSubmissionResponse {
    pub granter: String,
    pub grantee: String,
}

impl View for ParseAuthzGrantSubmissionResponse {
    type V = (Seq<char>, Seq<char>);

    open spec fn view(&self) -> (Seq<char>, Seq<char>) {
        (self.granter@, self.grantee@)
    }
}

/// What an exec submission holds: the grantee and the already-encoded
/// messages to run.
#[derive(Debug, Clone, PartialEq, Eq)]
pub struct ParseAuthzExecSubmissionResponse {
    pub grantee: String,
    pub messages: Vec<Vec<u8>>,
}

impl View for ParseAuthzExecSubmissionResponse {
    type V = (Seq<char>, Seq<Seq<u8>>);

    open spec fn view(&self) -> (Seq<char>, Seq<Seq<u8>>) {
        (self.grantee@, byte_seqs(self.messages@))
    }
}

/// What an exec payload holds: grantee 1, messages 2.
pub open spec fn exec_of(payload: Seq<u8>) -> Result<(Seq<char>, Seq<Seq<u8>>), TranslationError> {
    match text_value(payload, 1) {
        Err(e) => Err(e),
        Ok(grantee) => match repeated_value(payload, 2) {
            Err(e) => Err(e),
            Ok(msgs) => Ok((grantee, msgs)),
        },
    }
}

/// What a grant payload holds: granter 1, grantee 2.
pub open spec fn grant_of(payload: Seq<u8>) -> Result<(Seq<char>, Seq<char>), TranslationError> {
    let fs = payload;
    match text_value(fs, 1) {
        Err(e) => Err(e),
        Ok(granter) => match text_value(fs, 2) {
            Err(e) => Err(e),
            Ok(grantee) => Ok((granter, grantee)),
        },
    }
}

/// The fields of an exec: grantee 1, one message per field 2, unchanged.
pub open spec fn exec_fields(grantee: Seq<char>, msgs: Seq<Seq<u8>>) -> Seq<WireField> {
    appended(Seq::empty(), 1, encode_utf8(grantee)) + repeated(2, msgs)
}

/// The fields of a grant: granter 1, grantee 2.
pub open spec fn grant_fields(granter: Seq<char>, grantee: Seq<char>) -> Seq<WireField> {
    appended(appended(Seq::empty(), 1, encode_utf8(granter)), 2, encode_utf8(grantee))
}

/// A permission submission translated; nothing in it is scaled. An exec keeps
/// its grantee and messages, only its field numbers change; a grant is made
/// by `dao` to the grantee. Bytes that the decoder rejects are
/// `MalformedPayload`; revocation has no translator.
pub open spec fn authz_translation(dao: Seq<char>, payload: Seq<u8>, authz_msg: AdapterAuthzMsg) -> Result<
    CanonicalView,
    TranslationError,
> {
    if authz_msg == AdapterAuthzMsg::MsgRevoke() {
        Err(TranslationError::UnsupportedVariant)
    } else if !bufany_parses(payload) {
        Err(TranslationError::MalformedPayload)
    } else {
        match authz_msg {
            AdapterAuthzMsg::MsgExec() => match exec_of(payload) {
                Err(e) => Err(e),
                Ok((grantee, msgs)) => Ok((exec_url(), wire_of(exec_fields(grantee, msgs)))),
            },
            _ => match grant_of(payload) {
                Err(e) => Err(e),
                Ok((_granter, grantee)) => Ok((grant_url(), wire_of(grant_fields(dao, grantee)))),
            },
        }
    }
}

pub open spec fn exec_result(r: Result<ParseAuthzExecSubmissionResponse, TranslationError>) -> Result<
    (Seq<char>, Seq<Seq<u8>>),
    TranslationError,
> {
    match r {
        Ok(p) => Ok(p@),
        Err(e) => Err(e),
    }
}

pub open spec fn grant_result(r: Result<ParseAuthzGrantSubmissionResponse, TranslationError>) -> Result<
    (Seq<char>, Seq<char>),
    TranslationError,
> {
    match r {
        Ok(p) => Ok(p@),
        Err(e) => Err(e),
    }
}

/// Translates a permission submission: an exec is republished with its own
/// grantee, a grant is made by `dao`. Revocation has no translator and fails
/// with `UnsupportedVariant`.
pub fn parse_stargate_wire_authz(dao: &String, msg: &SubmissionMsg, authz_msg: AdapterAuthzMsg) -> (r:
    Result<CanonicalMessage, TranslationError>)
    ensures
        authz_msg == AdapterAuthzMsg::MsgRevoke() ==> r == Err::<CanonicalMessage, TranslationError>(
            TranslationError::UnsupportedVariant,
        ),
        authz_msg != AdapterAuthzMsg::MsgRevoke() && !bufany_parses(msg.msg@) ==> r == Err::<
            CanonicalMessage,
            TranslationError,
        >(TranslationError::MalformedPayload),
        crate::msg::message_result(r) == authz_translation(
            dao@,
            msg.msg@,
            authz_msg,
        ),
{
    match authz_msg {
        AdapterAuthzMsg::MsgExec() => {
            let parsed = parse_authz_msg_bufany(&msg.msg)?;
            encode_authz_exec_msg_anybuf(&parsed.grantee, &parsed.messages)
        },
        AdapterAuthzMsg::MsgGrant() => {
            let parsed = parse_authz_grant_msg_bufany(&msg.msg)?;
            encode_authz_grant_msg_anybuf(dao, &parsed.grantee)
        },
        AdapterAuthzMsg::MsgRevoke() => Err(TranslationError::UnsupportedVariant),
    }
}

/// Reads an exec payload.
pub fn parse_authz_msg_bufany(msg: &Vec<u8>) -> (r: Result<
    ParseAuthzExecSubmissionResponse,
    TranslationError,
>)
    ensures
        !bufany_parses(msg@) ==> r == Err::<ParseAuthzExecSubmissionResponse, TranslationError>(
            TranslationError::MalformedPayload,
        ),
        exec_result(r) == exec_of(msg@),
{
    let deserialized = decode(msg.as_slice())?;
    let grantee = deserialized.string(1)?;
    let messages = deserialized.repeated_bytes(2)?;
    Ok(ParseAuthzExecSubmissionResponse { grantee, messages })
}

/// Reads a grant payload.
pub fn parse_authz_grant_msg_bufany(msg: &Vec<u8>) -> (r: Result<
    ParseAuthzGrantSubmissionResponse,
    TranslationError,
>)
    ensures
        !bufany_parses(msg@) ==> r == Err::<ParseAuthzGrantSubmissionResponse, TranslationError>(
            TranslationError::MalformedPayload,
        ),
        grant_result(r) == grant_of(msg@),
{
    let deserialized = decode(msg.as_slice())?;
    let granter = deserialized.string(1)?;
    let grantee = deserialized.string(2)?;
    Ok(ParseAuthzGrantSubmissionResponse { grantee, granter })
}

/// Writes an exec by `grantee` of `msgs`, passed through unchanged.
pub fn encode_authz_exec_msg_anybuf(grantee: &String, msgs: &Vec<Vec<u8>>) -> (r: Result<
    CanonicalMessage,
    TranslationError,
>)
    ensures
        crate::msg::message_result(r) == Ok::<CanonicalView, TranslationError>(
            (exec_url(), wire_of(exec_fields(grantee@, byte_seqs(msgs@)))),
        ),
{
    let proto = FieldWriter::new().append_string(1, grantee.as_str()).append_repeated_bytes(
        2,
        msgs,
    ).into_bytes();
    assert(msgs@.map_values(|v: Vec<u8>| v@) == byte_seqs(msgs@));
    Ok(stargate("/cosmos.authz.v1beta1.MsgExec", proto))
}

/// Writes a grant from `granter` to `grantee`.
pub fn encode_authz_grant_msg_anybuf(granter: &String, grantee: &String) -> (r: Result<
    CanonicalMessage,
    TranslationError,
>)
    ensures
        crate::msg::message_result(r) == Ok::<CanonicalView, TranslationError>(
            (grant_url(), wire_of(grant_fields(granter@, grantee@))),
        ),
{
    let proto = FieldWriter::new().append_string(1, granter.as_str()).append_string(
        2,
        grantee.as_str(),
    ).into_bytes();
    Ok(stargate("/cosmos.authz.v1beta1.MsgGrant", proto))
}

/// Round trip: a grant payload built from a granter and a grantee decodes to
/// exactly those, and its translation names the same grantee, granted by `dao`.
pub proof fn lemma_grant_round_trip(granter: Seq<char>, grantee: Seq<char>, dao: Seq<char>)
    requires
        granter.len() > 0,
        grantee.len() > 0,
        wire_of(grant_fields(granter, grantee)).len() < usize_limit(),
    ensures
        ({
            let payload = wire_of(grant_fields(granter, grantee));
            &&& bufany_parses(payload)
            &&& grant_of(payload) == Ok::<(Seq<char>, Seq<char>), TranslationError>(
                (granter, grantee),
            )
            &&& authz_translation(dao, payload, AdapterAuthzMsg::MsgGrant()) == Ok::<
                CanonicalView,
                TranslationError,
            >((grant_url(), wire_of(grant_fields(dao, grantee))))
        }),
{
    let e = Seq::<WireField>::empty();
    let f1 = appended(e, 1, encode_utf8(granter));
    let fs = appended(f1, 2, encode_utf8(grantee));
    lemma_utf8_nonempty(granter);
    lemma_utf8_nonempty(grantee);
    lemma_wire_ok_appended(e, 1, encode_utf8(granter));
    lemma_wire_ok_appended(f1, 2, encode_utf8(grantee));
    lemma_values_in_wire(fs);
    assert(values_at(e, 1) =~= Seq::<Seq<u8>>::empty());
    assert(values_at(e, 2) =~= Seq::<Seq<u8>>::empty());
    lemma_values_appended(e, 1, encode_utf8(granter), 1);
    lemma_values_appended(e, 1, encode_utf8(granter), 2);
    lemma_values_appended(f1, 2, encode_utf8(grantee), 1);
    lemma_values_appended(f1, 2, encode_utf8(grantee), 2);
    assert(values_at(fs, 1) =~= seq![encode_utf8(granter)]);
    assert(values_at(fs, 2) =~= seq![encode_utf8(grantee)]);
    assert(values_in(wire_of(fs), 1) == Some(values_at(fs, 1)));
    assert(values_in(wire_of(fs), 2) == Some(values_at(fs, 2)));
    lemma_text_of_utf8(wire_of(fs), 1, granter);
    lemma_text_of_utf8(wire_of(fs), 2, grantee);
}

/// Round trip: an exec payload built from a grantee and messages decodes to
/// exactly those, and its translation gives the payload back byte for byte.
pub proof fn lemma_exec_round_trip(grantee: Seq<char>, msgs: Seq<Seq<u8>>, dao: Seq<char>)
    requires
        grantee.len() > 0,
        wire_of(exec_fields(grantee, msgs)).len() < usize_limit(),
    ensures
        ({
            let payload = wire_of(exec_fields(grantee, msgs));
            &&& exec_of(payload) == Ok::<(Seq<char>, Seq<Seq<u8>>), TranslationError>(
                (grantee, msgs),
            )
            &&& authz_translation(dao, payload, AdapterAuthzMsg::MsgExec()) == Ok::<
                CanonicalView,
                TranslationError,
            >((exec_url(), payload))
        }),
{
    let e = Seq::<WireField>::empty();
    let head = appended(e, 1, encode_utf8(grantee));
    let rep = repeated(2, msgs);
    let fs = head + rep;
    lemma_utf8_nonempty(grantee);
    lemma_wire_ok_appended(e, 1, encode_utf8(grantee));
    lemma_wire_ok_repeated(2, msgs);
    lemma_wire_ok_concat(head, rep);
    lemma_values_in_wire(fs);
    assert forall|m: u32| 1 <= m <= 2 implies values_at(fs, m) =~= (if m == 1 {
        seq![encode_utf8(grantee)]
    } else {
        msgs
    }) by {
        assert(values_at(e, m) =~= Seq::<Seq<u8>>::empty());
        lemma_values_appended(e, 1, encode_utf8(grantee), m);
        lemma_values_repeated(2, msgs, m);
        lemma_values_concat(head, rep, m);
    }
    assert(values_at(fs, 1) =~= seq![encode_utf8(grantee)]);
    assert(values_at(fs, 2) =~= msgs);
    assert(values_in(wire_of(fs), 1) == Some(values_at(fs, 1)));
    assert(values_in(wire_of(fs), 2) == Some(values_at(fs, 2)));
    lemma_text_of_utf8(wire_of(fs), 1, grantee);
}

} // verus!
