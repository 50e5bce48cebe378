//! Dispatch by wire tag, and settlement of a batch of selections.
use vstd::prelude::*;

use crate::amount::Decimal;
use crate::authz::{authz_translation, parse_stargate_wire_authz};
use crate::bank::{bank_send_translation, parse_stargate_wire_bank};
use crate::distribution::{fund_pool_translation, parse_stargate_wire_distribution};
use crate::error::TranslationError;
use crate::msg::{
    message_result, AdapterAuthzMsg, AdapterWasmMsg, CanonicalMessage, CanonicalView, StargateWire,
    SubmissionMsg,
};
use crate::gov::{gov_prop_translation, parse_stargate_wire_gov};
use crate::staking::{parse_stargate_wire_staking, staking_translation};
use crate::wasm::{cw20_translation, parse_stargate_wire_wasm};
use crate::wire::bufany_parses;

verus! {

/// A submission's action as values: its tag and its payload.
pub type ActionView = (StargateWire, Seq<u8>);

impl View for SubmissionMsg {
    type V = ActionView;

    open spec fn view(&self) -> ActionView {
        (self.stargate, self.msg@)
    }
}

/// The tag has a translator. Revocations have none.
pub open spec fn has_translator(tag: StargateWire) -> bool {
    tag != StargateWire::Authz(AdapterAuthzMsg::MsgRevoke())
}

/// The canonical message for an action translated on behalf of `dao`, its
/// amounts scaled by `fraction`.
pub open spec fn translation(dao: Seq<char>, tag: StargateWire, payload: Seq<u8>, fraction: Decimal) -> Result<
    CanonicalView,
    TranslationError,
> {
    match tag {
        StargateWire::Bank(_) => bank_send_translation(payload, fraction),
        StargateWire::Wasm(AdapterWasmMsg::Cw20(op)) => cw20_translation(dao, payload, op, fraction),
        StargateWire::Distribution(_) => fund_pool_translation(dao, payload, fraction),
        StargateWire::Staking(s) => staking_translation(dao, payload, s, fraction),
        StargateWire::Authz(a) => authz_translation(dao, payload, a),
        StargateWire::Gov(_) => gov_prop_translation(dao, payload, fraction),
    }
}

/// Translates one submission's action on behalf of `dao`, scaling its amounts
/// by `fraction`. A tag without a translator fails with `UnsupportedVariant`,
/// and a payload that the decoder rejects with `MalformedPayload`.
///
/// Amount ceilings of the allow-list are not enforced here: eligibility is
/// decided when a submission is created, and every family is treated alike.
/// Nor is a fraction above one refused: keeping the fractions of a batch at
/// or below one in sum is the caller's task, and an amount that a large
/// fraction pushes past 128 bits fails with `Overflow`.
pub fn stargate_to_anybuf(dao: &String, msg: &SubmissionMsg, fraction: Decimal) -> (r: Result<
    CanonicalMessage,
    TranslationError,
>)
    ensures
        !has_translator(msg.stargate) ==> r == Err::<CanonicalMessage, TranslationError>(
            TranslationError::UnsupportedVariant,
        ),
        has_translator(msg.stargate) && !bufany_parses(msg.msg@) ==> r == Err::<
            CanonicalMessage,
            TranslationError,
        >(TranslationError::MalformedPayload),
        message_result(r) == translation(
            dao@,
            msg.stargate,
            msg.msg@,
            fraction,
        ),
{
    match msg.stargate {
        StargateWire::Bank(b) => parse_stargate_wire_bank(msg, b, fraction),
        StargateWire::Wasm(wasm_msg) => parse_stargate_wire_wasm(dao, msg, wasm_msg, fraction),
        StargateWire::Distribution(distr_msg) => parse_stargate_wire_distribution(
            dao,
            msg,
            distr_msg,
            fraction,
        ),
        StargateWire::Staking(stake_msg) => parse_stargate_wire_staking(
            dao,
            msg,
            stake_msg,
            fraction,
        ),
        StargateWire::Authz(authz_msg) => parse_stargate_wire_authz(dao, msg, authz_msg),
        StargateWire::Gov(gov_msg) => parse_stargate_wire_gov(dao, msg, gov_msg, fraction),
    }
}

/// A snapshot of the registry: submissions' actions by destination key.
pub type RegistryView = Seq<(Seq<char>, ActionView)>;

pub open spec fn registry_view(reg: Seq<(String, SubmissionMsg)>) -> RegistryView {
    reg.map_values(|e: (String, SubmissionMsg)| (e.0@, e.1@))
}

/// The action stored under `key`: the first entry with that key.
pub open spec fn lookup(reg: RegistryView, key: Seq<char>) -> Option<ActionView>
    decreases reg.len(),
{
    if reg.len() == 0 {
        None
    } else if reg[0].0 == key {
        Some(reg[0].1)
    } else {
        lookup(reg.drop_first(), key)
    }
}

/// The translation of the selection of `key` with `fraction`.
pub open spec fn selection_translation(
    dao: Seq<char>,
    reg: RegistryView,
    key: Seq<char>,
    fraction: Decimal,
) -> Result<CanonicalView, TranslationError> {
    match lookup(reg, key) {
        None => Err(TranslationError::NotFound),
        Some(a) => translation(dao, a.0, a.1, fraction),
    }
}

/// The submission under `key` exists, has a translator, and its payload is
/// accepted by the decoder.
pub open spec fn selection_accepted(reg: RegistryView, key: Seq<char>) -> bool {
    lookup(reg, key) matches Some(a) && has_translator(a.0) && bufany_parses(a.1)
}

/// The selections as values.
pub open spec fn selections_view(sel: Seq<(String, Decimal)>) -> Seq<(Seq<char>, Decimal)> {
    sel.map_values(|s: (String, Decimal)| (s.0@, s.1))
}

/// Settlement: each selection translated in order; the first failure is
/// the result, and no message is returned with it.
pub open spec fn settlement(dao: Seq<char>, reg: RegistryView, sel: Seq<(Seq<char>, Decimal)>) -> Result<
    Seq<CanonicalView>,
    TranslationError,
>
    decreases sel.len(),
{
    if sel.len() == 0 {
        Ok(Seq::empty())
    } else {
        match settlement(dao, reg, sel.drop_last()) {
            Err(e) => Err(e),
            Ok(ms) => match selection_translation(dao, reg, sel.last().0, sel.last().1) {
                Err(e) => Err(e),
                Ok(m) => Ok(ms.push(m)),
            },
        }
    }
}

pub open spec fn messages_result(r: Result<Vec<CanonicalMessage>, TranslationError>) -> Result<
    Seq<CanonicalView>,
    TranslationError,
> {
    match r {
        Ok(ms) => Ok(ms@.map_values(|m: CanonicalMessage| m@)),
        Err(e) => Err(e),
    }
}

/// The action stored under `key` in the snapshot `reg`.
pub fn load_submission<'a>(reg: &'a Vec<(String, SubmissionMsg)>, key: &String) -> (r: Result<
    &'a SubmissionMsg,
    TranslationError,
>)
    ensures
        match lookup(registry_view(reg@), key@) {
            None => r == Err::<&SubmissionMsg, TranslationError>(TranslationError::NotFound),
            Some(a) => r matches Ok(m) && m@ == a && exists|i: int|
                0 <= i < reg@.len() && reg@[i].1 == *m,
        },
{
    let mut i: usize = 0;
    assert(registry_view(reg@).subrange(0, reg@.len() as int) =~= registry_view(reg@));
    while i < reg.len()
        invariant
            i <= reg@.len(),
            lookup(registry_view(reg@), key@) == lookup(
                registry_view(reg@).subrange(i as int, reg@.len() as int),
                key@,
            ),
        decreases reg@.len() - i,
    {
        let ghost rest = registry_view(reg@).subrange(i as int, reg@.len() as int);
        assert(rest[0] == (reg@[i as int].0@, reg@[i as int].1@));
        if reg[i].0 == *key {
            return Ok(&reg[i].1);
        }
        assert(rest.drop_first() =~= registry_view(reg@).subrange(i + 1, reg@.len() as int));
        i = i + 1;
    }
    Err(TranslationError::NotFound)
}

/// Settles a batch: translates each selected submission, in input order, on
/// behalf of `dao` and with its fraction. Any failure aborts the whole batch
/// and is returned alone.
pub fn sample_gauge_msgs(
    dao: &String,
    reg: &Vec<(String, SubmissionMsg)>,
    selected: &Vec<(String, Decimal)>,
) -> (r: Result<Vec<CanonicalMessage>, TranslationError>)
    ensures
        r matches Ok(ms) ==> ms@.len() == selected@.len(),
        r is Ok ==> forall|i: int|
            0 <= i < selected@.len() ==> #[trigger] selection_accepted(
                registry_view(reg@),
                selected@[i].0@,
            ),
        messages_result(r) == settlement(
            dao@,
            registry_view(reg@),
            selections_view(selected@),
        ),
{
    let ghost rv = registry_view(reg@);
    let ghost sv = selections_view(selected@);
    let mut execute: Vec<CanonicalMessage> = Vec::new();
    let mut i: usize = 0;
    assert(sv.subrange(0, 0) =~= Seq::<(Seq<char>, Decimal)>::empty());
    assert(execute@.map_values(|m: CanonicalMessage| m@) =~= Seq::<CanonicalView>::empty());
    while i < selected.len()
        invariant
            i <= selected@.len(),
            execute@.len() == i,
            rv == registry_view(reg@),
            forall|j: int| 0 <= j < i ==> #[trigger] selection_accepted(rv, selected@[j].0@),
            sv == selections_view(selected@),
            settlement(dao@, rv, sv.subrange(0, i as int)) == Ok::<
                Seq<CanonicalView>,
                TranslationError,
            >(execute@.map_values(|m: CanonicalMessage| m@)),
        decreases selected@.len() - i,
    {
        let ghost before = execute@;
        let winner = &selected[i].0;
        let fraction = selected[i].1;
        let ghost pre = sv.subrange(0, i + 1);
        assert(pre.drop_last() =~= sv.subrange(0, i as int));
        assert(pre.last() == (winner@, fraction));
        let msg = match load_submission(reg, winner) {
            Ok(m) => m,
            Err(e) => {
                proof {
                    lemma_settlement_error_prefix(dao@, rv, sv, i + 1);
                    assert(sv.subrange(0, sv.len() as int) =~= sv);
                }
                return Err(e);
            },
        };
        match stargate_to_anybuf(dao, msg, fraction) {
            Ok(m) => {
                assert(selection_accepted(rv, selected@[i as int].0@));
                execute.push(m);
                proof {
                    assert(execute@.map_values(|m: CanonicalMessage| m@) =~= before.map_values(
                        |m: CanonicalMessage| m@,
                    ).push(m@));
                }
            },
            Err(e) => {
                proof {
                    lemma_settlement_error_prefix(dao@, rv, sv, i + 1);
                    assert(sv.subrange(0, sv.len() as int) =~= sv);
                }
                return Err(e);
            },
        }
        i = i + 1;
    }
    assert(sv.subrange(0, sv.len() as int) =~= sv);
    Ok(execute)
}

proof fn lemma_settlement_error_prefix(
    dao: Seq<char>,
    reg: RegistryView,
    sel: Seq<(Seq<char>, Decimal)>,
    k: int,
)
    requires
        0 <= k <= sel.len(),
        settlement(dao, reg, sel.subrange(0, k)) is Err,
    ensures
        settlement(dao, reg, sel) == settlement(dao, reg, sel.subrange(0, k)),
    decreases sel.len() - k,
{
    if k < sel.len() {
        let next = sel.subrange(0, k + 1);
        assert(next.drop_last() =~= sel.subrange(0, k));
        lemma_settlement_error_prefix(dao, reg, sel, k + 1);
    } else {
        assert(sel.subrange(0, k) =~= sel);
    }
}

/// A tag outside the table of translators always fails with
/// `UnsupportedVariant`, whatever the payload and fraction; it never falls
/// through to another family.
pub proof fn lemma_unsupported_tag(dao: Seq<char>, tag: StargateWire, payload: Seq<u8>, fraction: Decimal)
    requires
        !has_translator(tag),
    ensures
        translation(dao, tag, payload, fraction) == Err::<CanonicalView, TranslationError>(
            TranslationError::UnsupportedVariant,
        ),
{
}

/// Settlement is all or nothing: if the translation of any selection fails,
/// settlement fails and returns no message at all.
pub proof fn lemma_settlement_atomic(
    dao: Seq<char>,
    reg: RegistryView,
    sel: Seq<(Seq<char>, Decimal)>,
    i: int,
)
    requires
        0 <= i < sel.len(),
        selection_translation(dao, reg, sel[i].0, sel[i].1) is Err,
    ensures
        settlement(dao, reg, sel) is Err,
    decreases sel.len(),
{
    if i < sel.len() - 1 {
        let init = sel.drop_last();
        assert(init[i] == sel[i]);
        lemma_settlement_atomic(dao, reg, init, i);
    }
}

} // verus!
