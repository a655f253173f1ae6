use vstd::prelude::*;

use crate::error::ContractError;
use crate::fixed::{converted_value, decimal_divisor, meets_floor};
use crate::oracle_helper::PriceResponse;

verus! {

/// Reply tag of the creation of the child token contract.
pub const INSTANTIATE_REPLY: u64 = 1;

/// Reply tag of a mint on the child token contract.
pub const MINT_REPLY: u64 = 2;

#[derive(Debug, Clone, PartialEq, Eq)]
pub struct Trait {
    pub display_type: Option<String>,
    pub trait_type: String,
    pub value: String,
}

/// Token metadata, handed to the child contract unchanged.
#[derive(Debug, Clone, PartialEq, Eq, Default)]
pub struct Metadata {
    pub image: Option<String>,
    pub image_data: Option<String>,
    pub external_url: Option<String>,
    pub description: Option<String>,
    pub name: Option<String>,
    pub attributes: Option<Vec<Trait>>,
    pub background_color: Option<String>,
    pub animation_url: Option<String>,
    pub youtube_url: Option<String>,
}

#[derive(Debug, Clone, PartialEq, Eq)]
pub struct InstantiateMsg {
    pub cw721_code_id: u64,
    pub name: String,
    pub symbol: String,
    pub payment_denom: String,
    pub payment_price: u128,
    pub oracle_helper_addr: String,
}

#[derive(Debug, Clone, PartialEq, Eq)]
pub enum ExecuteMsg {
    MintToken { extension: Option<Metadata>, token_uri: Option<String> },
    UpdateNftPrice { new_price: u128 },
}

#[derive(Debug, Clone, PartialEq, Eq)]
pub enum QueryMsg {
    Token {},
    NftPrice {},
}

#[derive(Debug, Clone, PartialEq, Eq)]
pub struct MigrateMsg {}

/// One currency line attached to a call.
#[derive(Debug, Clone, PartialEq, Eq)]
pub struct Coin {
    pub denom: String,
    pub amount: u128,
}

/// The creation of the child token contract, to be dispatched with reply tag `reply_id`.
#[derive(Debug, Clone, PartialEq, Eq)]
pub struct TokenInstantiation {
    pub code_id: u64,
    pub name: String,
    pub symbol: String,
    pub minter: String,
    pub label: String,
    pub reply_id: u64,
}

/// A mint on the child token contract, to be dispatched with reply tag `reply_id`.
#[derive(Debug, Clone, PartialEq, Eq)]
pub struct MintRequest {
    pub contract_addr: String,
    pub token_id: String,
    pub owner: String,
    pub token_uri: Option<String>,
    pub extension: Option<Metadata>,
    pub reply_id: u64,
}

/// State of the issuer. `token` is absent until the child contract has been created;
/// `token_count` is the number of the next token; `pending_mints` counts the mints
/// dispatched whose reply has not come yet.
#[derive(Debug, Clone, PartialEq, Eq)]
pub struct IssuerState {
    pub payment_denom: String,
    pub nft_price: u128,
    pub oracle_helper_addr: String,
    pub token: Option<String>,
    pub token_count: u64,
    pub pending_mints: u64,
}

pub open spec fn digit_char(d: int) -> char {
    if d == 0 {
        '0'
    } else if d == 1 {
        '1'
    } else if d == 2 {
        '2'
    } else if d == 3 {
        '3'
    } else if d == 4 {
        '4'
    } else if d == 5 {
        '5'
    } else if d == 6 {
        '6'
    } else if d == 7 {
        '7'
    } else if d == 8 {
        '8'
    } else {
        '9'
    }
}

/// The decimal digits of `n`, without sign or leading zero.
pub open spec fn decimal_text(n: nat) -> Seq<char>
    decreases n,
{
    if n < 10 {
        seq![digit_char(n as int)]
    } else {
        decimal_text(n / 10).push(digit_char((n % 10) as int))
    }
}

/// Relies on the `Display` of `u64` through `ToString`: its decimal digits.
#[verifier::external_body]
fn decimal_string(n: u64) -> (r: String)
    ensures
        r@ == decimal_text(n as nat),
{
    n.to_string()
}

#[verifier::external_type_specification]
#[verifier::external_body]
pub struct ExParseReplyError(cw_utils::ParseReplyError);

/// The contract address carried by a protobuf-encoded instantiation response, when the
/// bytes parse.
pub uninterp spec fn instantiated_address(data: Seq<u8>) -> Option<Seq<char>>;

/// Relies on cw_utils::parse_instantiate_response_data: its answer depends on the bytes
/// alone.
#[verifier::external_body]
fn parse_instantiate_address(data: &[u8]) -> (r: Result<String, cw_utils::ParseReplyError>)
    ensures
        r.is_ok() == instantiated_address(data@).is_some(),
        r matches Ok(a) ==> Some(a@) == instantiated_address(data@),
{
    cw_utils::parse_instantiate_response_data(data).map(|res| res.contract_address)
}

/// `post` and `m` are what a successful mint on `pre` gives for `sender`.
pub open spec fn minted(pre: IssuerState, post: IssuerState, m: MintRequest, sender: String) -> bool {
    &&& pre.token_count < u64::MAX
    &&& pre.pending_mints < u64::MAX
    &&& m.token_id@ == decimal_text(pre.token_count as nat)
    &&& m.owner == sender
    &&& Some(m.contract_addr) == pre.token
    &&& m.reply_id == MINT_REPLY
    &&& post == (IssuerState {
        token_count: (pre.token_count + 1) as u64,
        pending_mints: (pre.pending_mints + 1) as u64,
        ..pre
    })
}

/// What a payment must be: exactly one currency line, in the payment denomination.
pub open spec fn funds_error(state: IssuerState, funds: Seq<Coin>) -> Option<ContractError> {
    if funds.len() == 0 {
        Some(ContractError::MissingFunds {})
    } else if funds.len() > 1 {
        Some(ContractError::ExtraFunds {})
    } else if funds[0].denom@ != state.payment_denom@ {
        Some(ContractError::InvalidDenom { got: funds[0].denom, expected: state.payment_denom })
    } else {
        None
    }
}

/// The price answer of `denom` in `prices`; of several, the last one counts.
pub open spec fn price_entry(prices: Seq<PriceResponse>, denom: Seq<char>) -> Option<PriceResponse>
    decreases prices.len(),
{
    if prices.len() == 0 {
        None
    } else if prices.last().denom@ == denom {
        Some(prices.last())
    } else {
        price_entry(prices.drop_last(), denom)
    }
}

/// Whether a payment of `amount` at the price answer `p` reaches `floor`, or the error of
/// the conversion.
pub open spec fn floor_check(amount: u128, p: PriceResponse, floor: u128) -> Result<
    bool,
    ContractError,
> {
    if decimal_divisor(p.decimal) is None || p.price < 0 {
        Err(ContractError::InvalidDecimal {})
    } else {
        Ok(converted_value(amount, p.price, decimal_divisor(p.decimal)->0) >= floor)
    }
}

/// The error with which a mint fails on `state`, given the payment and the price answers,
/// or `None` when it succeeds.
pub open spec fn mint_error(state: IssuerState, funds: Seq<Coin>, prices: Seq<PriceResponse>) -> Option<
    ContractError,
> {
    if funds_error(state, funds) is Some {
        funds_error(state, funds)
    } else if price_entry(prices, funds[0].denom@) is None {
        Some(ContractError::NotFound {})
    } else {
        match floor_check(funds[0].amount, price_entry(prices, funds[0].denom@)->0, state.nft_price) {
            Err(e) => Some(e),
            Ok(false) => Some(ContractError::InsufficientFunds {}),
            Ok(true) => if state.token is None {
                Some(ContractError::TokenNotReady {})
            } else if state.token_count == u64::MAX || state.pending_mints == u64::MAX {
                Some(ContractError::OverflowError {})
            } else {
                None
            },
        }
    }
}

proof fn lemma_decimal_text_len(n: nat)
    ensures
        decimal_text(n).len() >= 1,
        n >= 10 ==> decimal_text(n).len() >= 2,
    decreases n,
{
    if n >= 10 {
        lemma_decimal_text_len(n / 10);
    }
}

/// Different numbers have different decimal texts.
pub proof fn lemma_decimal_text_injective(a: nat, b: nat)
    requires
        decimal_text(a) == decimal_text(b),
    ensures
        a == b,
    decreases a,
{
    lemma_decimal_text_len(a);
    lemma_decimal_text_len(b);
    if a < 10 && b < 10 {
        assert(decimal_text(a)[0] == digit_char(a as int));
        assert(decimal_text(b)[0] == digit_char(b as int));
    } else if a >= 10 && b >= 10 {
        let ta = decimal_text(a);
        let tb = decimal_text(b);
        assert(ta.last() == digit_char((a % 10) as int));
        assert(tb.last() == digit_char((b % 10) as int));
        assert(ta.drop_last() =~= decimal_text(a / 10));
        assert(tb.drop_last() =~= decimal_text(b / 10));
        lemma_decimal_text_injective(a / 10, b / 10);
    }
}

/// Over any run of successful mints, by any senders, the tokens are numbered on from the
/// counter one by one: each token id is the decimal text of its number, and no id repeats.
pub proof fn lemma_token_ids_increase(
    states: Seq<IssuerState>,
    mints: Seq<MintRequest>,
    senders: Seq<String>,
)
    requires
        states.len() == mints.len() + 1,
        senders.len() == mints.len(),
        forall|i: int|
            0 <= i < mints.len() ==> minted(states[i], states[i + 1], #[trigger] mints[i], senders[i]),
    ensures
        forall|i: int|
            0 <= i < mints.len() ==> (#[trigger] mints[i]).token_id@ == decimal_text(
                (states[0].token_count + i) as nat,
            ),
        forall|i: int, j: int|
            0 <= i < j < mints.len() ==> (#[trigger] mints[i]).token_id@ != (#[trigger] mints[j]).token_id@,
{
    assert forall|i: int| 0 <= i < states.len() implies (#[trigger] states[i]).token_count
        == states[0].token_count + i by {
        lemma_counter_advances(states, mints, senders, i);
    }
    assert forall|i: int, j: int| 0 <= i < j < mints.len() implies (#[trigger] mints[i]).token_id@
        != (#[trigger] mints[j]).token_id@ by {
        assert(states[i].token_count == states[0].token_count + i);
        assert(states[j].token_count == states[0].token_count + j);
        assert(minted(states[i], states[i + 1], mints[i], senders[i]));
        assert(minted(states[j], states[j + 1], mints[j], senders[j]));
        if mints[i].token_id@ == mints[j].token_id@ {
            lemma_decimal_text_injective(
                states[i].token_count as nat,
                states[j].token_count as nat,
            );
        }
    }
    assert forall|i: int| 0 <= i < mints.len() implies (#[trigger] mints[i]).token_id@
        == decimal_text((states[0].token_count + i) as nat) by {
        assert(states[i].token_count == states[0].token_count + i);
        assert(minted(states[i], states[i + 1], mints[i], senders[i]));
    }
}

proof fn lemma_counter_advances(
    states: Seq<IssuerState>,
    mints: Seq<MintRequest>,
    senders: Seq<String>,
    k: int,
)
    requires
        states.len() == mints.len() + 1,
        senders.len() == mints.len(),
        forall|i: int|
            0 <= i < mints.len() ==> minted(states[i], states[i + 1], #[trigger] mints[i], senders[i]),
        0 <= k < states.len(),
    ensures
        states[k].token_count == states[0].token_count + k,
    decreases k,
{
    if k > 0 {
        lemma_counter_advances(states, mints, senders, k - 1);
        assert(minted(states[k - 1], states[k], mints[k - 1], senders[k - 1]));
    }
}

/// A payment with more than one currency line fails with `ExtraFunds`, whatever the
/// prices: the check on the payment comes before any price is read.
pub proof fn lemma_extra_funds_first(
    state: IssuerState,
    funds: Seq<Coin>,
    prices: Seq<PriceResponse>,
)
    requires
        funds.len() > 1,
    ensures
        mint_error(state, funds, prices) == Some(ContractError::ExtraFunds {}),
{
}

/// A price answer with a precision other than 6 or 18 places fails with
/// `InvalidDecimal`, whatever the floor: no comparison is made.
pub proof fn lemma_invalid_decimal_first(
    state: IssuerState,
    funds: Seq<Coin>,
    prices: Seq<PriceResponse>,
)
    requires
        funds_error(state, funds) is None,
        price_entry(prices, funds[0].denom@) matches Some(p) && p.decimal != 6 && p.decimal != 18,
    ensures
        forall|floor: u128|
            #[trigger] floor_check(funds[0].amount, price_entry(prices, funds[0].denom@)->0, floor)
                == Err::<bool, ContractError>(ContractError::InvalidDecimal {}),
        mint_error(state, funds, prices) == Some(ContractError::InvalidDecimal {}),
{
}

/// Checks the currency lines attached to a mint.
pub fn check_funds(state: &IssuerState, funds: &Vec<Coin>) -> (r: Result<(), ContractError>)
    ensures
        r == match funds_error(*state, funds@) {
            Some(e) => Err(e),
            None => Ok(()),
        },
{
    if funds.len() == 0 {
        return Err(ContractError::MissingFunds {});
    }
    if funds.len() > 1 {
        return Err(ContractError::ExtraFunds {});
    }
    if funds[0].denom != state.payment_denom {
        return Err(
            ContractError::InvalidDenom {
                got: funds[0].denom.clone(),
                expected: state.payment_denom.clone(),
            },
        );
    }
    Ok(())
}

/// The price answer of `denom` in `prices`; of several, the last one counts.
pub fn price_for_denom(prices: &Vec<PriceResponse>, denom: &String) -> (r: Option<PriceResponse>)
    ensures
        r == price_entry(prices@, denom@),
{
    let mut i: usize = prices.len();
    assert(prices@.take(i as int) =~= prices@);
    while i > 0
        invariant
            i <= prices@.len(),
            price_entry(prices@, denom@) == price_entry(prices@.take(i as int), denom@),
        decreases i,
    {
        let ghost t = prices@.take(i as int);
        assert(t.drop_last() =~= prices@.take(i as int - 1));
        if prices[i - 1].denom == *denom {
            let p = &prices[i - 1];
            return Some(PriceResponse { denom: p.denom.clone(), decimal: p.decimal, price: p.price });
        }
        i = i - 1;
    }
    None
}

/// Sets up the issuer, and the creation of its child token contract with minter
/// `contract_address`. The oracle helper address must already have been validated.
pub fn instantiate(contract_address: String, msg: InstantiateMsg) -> (r: (IssuerState, TokenInstantiation))
    ensures
        r.0.payment_denom == msg.payment_denom,
        r.0.nft_price == msg.payment_price,
        r.0.oracle_helper_addr == msg.oracle_helper_addr,
        r.0.token is None,
        r.0.token_count == 0,
        r.0.pending_mints == 0,
        r.1.code_id == msg.cw721_code_id,
        r.1.name == msg.name,
        r.1.symbol == msg.symbol,
        r.1.minter == contract_address,
        r.1.reply_id == INSTANTIATE_REPLY,
{
    let state = IssuerState {
        payment_denom: msg.payment_denom,
        nft_price: msg.payment_price,
        oracle_helper_addr: msg.oracle_helper_addr,
        token: None,
        token_count: 0,
        pending_mints: 0,
    };
    let creation = TokenInstantiation {
        code_id: msg.cw721_code_id,
        name: msg.name,
        symbol: msg.symbol,
        minter: contract_address,
        label: String::from_str("Nft Contract"),
        reply_id: INSTANTIATE_REPLY,
    };
    (state, creation)
}

impl IssuerState {
    /// Validates a paid mint and allocates the next token number. `prices` is what the
    /// oracle helper answered for all its denominations. On success the mint of token
    /// `token_count` for `sender` is returned, to be dispatched with reply tag `MINT_REPLY`;
    /// on failure the state is unchanged.
    pub fn mint_token(
        &mut self,
        sender: &String,
        funds: &Vec<Coin>,
        prices: &Vec<PriceResponse>,
        token_uri: Option<String>,
        extension: Option<Metadata>,
    ) -> (r: Result<MintRequest, ContractError>)
        ensures
            mint_error(*old(self), funds@, prices@) matches Some(e) ==> r == Err::<
                MintRequest,
                ContractError,
            >(e) && *final(self) == *old(self),
            mint_error(*old(self), funds@, prices@) is None ==> r is Ok,
            r matches Ok(m) ==> minted(*old(self), *final(self), m, *sender) && m.token_uri
                == token_uri && m.extension == extension,
    {
        check_funds(self, funds)?;
        let amount = funds[0].amount;
        let price = match price_for_denom(prices, &funds[0].denom) {
            Some(p) => p,
            None => return Err(ContractError::NotFound {}),
        };
        let enough = meets_floor(amount, price.price, price.decimal, self.nft_price)?;
        if !enough {
            return Err(ContractError::InsufficientFunds {});
        }
        let token_addr = match &self.token {
            Some(a) => a.clone(),
            None => return Err(ContractError::TokenNotReady {}),
        };
        if self.token_count == u64::MAX || self.pending_mints == u64::MAX {
            return Err(ContractError::OverflowError {});
        }
        let token_id = decimal_string(self.token_count);
        self.token_count = self.token_count + 1;
        self.pending_mints = self.pending_mints + 1;
        Ok(
            MintRequest {
                contract_addr: token_addr,
                token_id,
                owner: sender.clone(),
                token_uri,
                extension,
                reply_id: MINT_REPLY,
            },
        )
    }

    /// Runs one operation. A mint returns the request to dispatch, as `mint_token` does;
    /// a price update returns none.
    pub fn execute(
        &mut self,
        sender: &String,
        funds: &Vec<Coin>,
        prices: &Vec<PriceResponse>,
        msg: ExecuteMsg,
    ) -> (r: Result<Option<MintRequest>, ContractError>)
        ensures
            match msg {
                ExecuteMsg::MintToken { extension, token_uri } => {
                    &&& mint_error(*old(self), funds@, prices@) matches Some(e) ==> r == Err::<
                        Option<MintRequest>,
                        ContractError,
                    >(e) && *final(self) == *old(self)
                    &&& mint_error(*old(self), funds@, prices@) is None ==> (r matches Ok(Some(m))
                        && minted(*old(self), *final(self), m, *sender) && m.token_uri == token_uri
                        && m.extension == extension)
                },
                ExecuteMsg::UpdateNftPrice { new_price } => r == Ok::<
                    Option<MintRequest>,
                    ContractError,
                >(None) && *final(self) == (IssuerState { nft_price: new_price, ..*old(self) }),
            },
    {
        match msg {
            ExecuteMsg::MintToken { extension, token_uri } => {
                let m = self.mint_token(sender, funds, prices, token_uri, extension)?;
                Ok(Some(m))
            },
            ExecuteMsg::UpdateNftPrice { new_price } => {
                self.update_nft_price(new_price);
                Ok(None)
            },
        }
    }

    /// Stores the address of the created child contract, given the parse of the creation
    /// reply. A second creation reply, once the address is set, is refused.
    pub fn set_token_address(&mut self, parsed: Option<String>) -> (r: Result<(), ContractError>)
        ensures
            old(self).token is Some ==> r == Err::<(), ContractError>(
                ContractError::UnrecognizedReply {},
            ) && *final(self) == *old(self),
            old(self).token is None && parsed is None ==> r == Err::<(), ContractError>(
                ContractError::ParseReply {},
            ) && *final(self) == *old(self),
            old(self).token is None && parsed is Some ==> r is Ok && *final(self) == (IssuerState {
                token: parsed,
                ..*old(self)
            }),
    {
        if self.token.is_some() {
            return Err(ContractError::UnrecognizedReply {});
        }
        match parsed {
            None => Err(ContractError::ParseReply {}),
            Some(a) => {
                self.token = Some(a);
                Ok(())
            },
        }
    }

    /// Handles the reply to a dispatched request, by its tag: the creation of the child
    /// contract, whose response `data` carries its address, or a mint. A reply that matches
    /// no outstanding request fails with `UnrecognizedReply`.
    pub fn reply(&mut self, id: u64, data: Option<Vec<u8>>) -> (r: Result<(), ContractError>)
        ensures
            r is Err ==> *final(self) == *old(self),
            id != INSTANTIATE_REPLY && id != MINT_REPLY ==> r == Err::<(), ContractError>(
                ContractError::UnrecognizedReply {},
            ),
            id == INSTANTIATE_REPLY && old(self).token is Some ==> r == Err::<(), ContractError>(
                ContractError::UnrecognizedReply {},
            ),
            id == INSTANTIATE_REPLY && old(self).token is None ==> match data {
                None => r == Err::<(), ContractError>(ContractError::ParseReply {}),
                Some(d) => match instantiated_address(d@) {
                    None => r == Err::<(), ContractError>(ContractError::ParseReply {}),
                    Some(a) => r is Ok && (final(self).token matches Some(t) && t@ == a)
                        && *final(self) == (IssuerState { token: final(self).token, ..*old(self) }),
                },
            },
            id == MINT_REPLY && old(self).pending_mints == 0 ==> r == Err::<(), ContractError>(
                ContractError::UnrecognizedReply {},
            ),
            id == MINT_REPLY && old(self).pending_mints > 0 ==> r is Ok && *final(self) == (
            IssuerState { pending_mints: (old(self).pending_mints - 1) as u64, ..*old(self) }),
    {
        if id == INSTANTIATE_REPLY {
            if self.token.is_some() {
                return Err(ContractError::UnrecognizedReply {});
            }
            let parsed = match &data {
                None => None,
                Some(d) => match parse_instantiate_address(d.as_slice()) {
                    Ok(a) => Some(a),
                    Err(_) => None,
                },
            };
            self.set_token_address(parsed)
        } else if id == MINT_REPLY {
            if self.pending_mints == 0 {
                return Err(ContractError::UnrecognizedReply {});
            }
            self.pending_mints = self.pending_mints - 1;
            Ok(())
        } else {
            Err(ContractError::UnrecognizedReply {})
        }
    }

    /// The address of the child token contract, once created.
    pub fn query_token(&self) -> (r: Option<String>)
        ensures
            r == self.token,
    {
        self.token.clone()
    }

    /// The price floor of a mint.
    pub fn query_nft_price(&self) -> (r: u128)
        ensures
            r == self.nft_price,
    {
        self.nft_price
    }

    /// Sets the price floor of a mint.
    pub fn update_nft_price(&mut self, new_price: u128)
        ensures
            *final(self) == (IssuerState { nft_price: new_price, ..*old(self) }),
    {
        self.nft_price = new_price;
    }
}

} // verus!
