use vstd::prelude::*;
use vstd::string::StringSliceAdditionalSpecFns;
use vstd::utf8::encode_utf8;

use crate::error::ContractError;
use crate::feed::{
    current_price, decode_price_id, hex_decodes_to, is_id_hex, recent_price, PriceFeed,
    PRICE_MAX_AGE,
};
use crate::order::{
    bytes_lt, lemma_lex_irreflexive, lemma_lex_total, lemma_lex_transitive, lex_lt,
};

verus! {

broadcast use vstd::utf8::encode_utf8_decode_utf8;

/// Price-feed metadata of one denomination.
#[derive(Debug, Clone, PartialEq, Eq)]
pub struct PriceData {
    pub denom: String,
    pub decimal: u8,
    pub price_id: String,
}

#[derive(Debug, Clone, PartialEq, Eq)]
pub struct InstantiateMsg {
    pub oracle_address: String,
}

#[derive(Debug, Clone, PartialEq, Eq)]
pub enum ExecuteMsg {
    UpdateOracleAddress { oracle_address: String },
    SetData { data: PriceData },
    SetDataBatch { data: Vec<PriceData> },
    RemoveData { price_denom: String },
}

#[derive(Debug, Clone, PartialEq, Eq)]
pub struct ConfigResponse {
    pub admin: String,
    pub oracle_address: String,
}

#[derive(Debug, Clone, PartialEq, Eq)]
pub struct PriceResponse {
    pub denom: String,
    pub decimal: u8,
    pub price: i64,
}

#[derive(Debug, Clone, PartialEq, Eq)]
pub enum QueryMsg {
    Config {},
    AllDenoms {},
    PriceId { denom: String },
    Price { denom: String },
    Prices {},
    CheckDenom { denom: String },
}

/// The storage key of a denomination: its UTF-8 bytes. Keys are listed in `lex_lt` order.
pub open spec fn key_of(d: Seq<char>) -> Seq<u8> {
    encode_utf8(d)
}

pub open spec fn sorted_by_key(recs: Seq<PriceData>) -> bool {
    forall|i: int, j: int|
        0 <= i < j < recs.len() ==> lex_lt(
            key_of(#[trigger] recs[i].denom@),
            key_of(#[trigger] recs[j].denom@),
        )
}

pub open spec fn has_denom(recs: Seq<PriceData>, d: Seq<char>) -> bool {
    exists|i: int| 0 <= i < recs.len() && (#[trigger] recs[i]).denom@ == d
}

pub open spec fn index_of(recs: Seq<PriceData>, d: Seq<char>) -> int {
    choose|i: int| 0 <= i < recs.len() && (#[trigger] recs[i]).denom@ == d
}

/// The records as a map from denomination to record.
pub open spec fn records_map(recs: Seq<PriceData>) -> Map<Seq<char>, PriceData> {
    Map::new(|d: Seq<char>| has_denom(recs, d), |d: Seq<char>| recs[index_of(recs, d)])
}

/// The map after upserting each record of `data` in turn.
pub open spec fn upsert_all(m: Map<Seq<char>, PriceData>, data: Seq<PriceData>) -> Map<
    Seq<char>,
    PriceData,
>
    decreases data.len(),
{
    if data.len() == 0 {
        m
    } else {
        upsert_all(m, data.drop_last()).insert(data.last().denom@, data.last())
    }
}

pub open spec fn response_of(rec: PriceData, feed: PriceFeed, current_time: i64) -> Option<
    PriceResponse,
> {
    match recent_price(feed, current_time, PRICE_MAX_AGE) {
        Some(p) => Some(PriceResponse { denom: rec.denom, decimal: rec.decimal, price: p.price }),
        None => None,
    }
}

proof fn lemma_index_unique(recs: Seq<PriceData>, k: int)
    requires
        sorted_by_key(recs),
        0 <= k < recs.len(),
    ensures
        index_of(recs, recs[k].denom@) == k,
{
    let d = recs[k].denom@;
    assert(has_denom(recs, d));
    let i = index_of(recs, d);
    lemma_lex_irreflexive(key_of(d));
    if i < k {
        assert(lex_lt(key_of(recs[i].denom@), key_of(recs[k].denom@)));
    } else if i > k {
        assert(lex_lt(key_of(recs[k].denom@), key_of(recs[i].denom@)));
    }
}

proof fn lemma_map_entry(recs: Seq<PriceData>, k: int)
    requires
        sorted_by_key(recs),
        0 <= k < recs.len(),
    ensures
        records_map(recs).contains_key(recs[k].denom@),
        records_map(recs)[recs[k].denom@] == recs[k],
{
    lemma_index_unique(recs, k);
}

/// State of the price registry: its admin, the oracle it relays to, and the records
/// kept in ascending key order.
pub struct Registry {
    admin: String,
    oracle_address: String,
    records: Vec<PriceData>,
}

impl Registry {
    pub closed spec fn admin_view(&self) -> Seq<char> {
        self.admin@
    }

    pub closed spec fn oracle_view(&self) -> Seq<char> {
        self.oracle_address@
    }

    pub closed spec fn record_seq(&self) -> Seq<PriceData> {
        self.records@
    }

    pub closed spec fn wf(&self) -> bool {
        sorted_by_key(self.records@)
    }

    /// The registered records by denomination.
    pub open spec fn view(&self) -> Map<Seq<char>, PriceData> {
        records_map(self.record_seq())
    }

    /// Creates a registry administered by `sender` and holding no record.
    pub fn instantiate(sender: String, msg: InstantiateMsg) -> (r: Registry)
        ensures
            r.wf(),
            r.admin_view() == sender@,
            r.oracle_view() == msg.oracle_address@,
            r@ == Map::<Seq<char>, PriceData>::empty(),
    {
        let r = Registry { admin: sender, oracle_address: msg.oracle_address, records: Vec::new() };
        assert(r@ =~= Map::<Seq<char>, PriceData>::empty());
        r
    }

    pub fn check_admin(&self, sender: &String) -> (r: Result<(), ContractError>)
        ensures
            r is Ok <==> sender@ == self.admin_view(),
            r is Err ==> r == Err::<(), ContractError>(ContractError::Unauthorized {}),
    {
        if *sender != self.admin {
            return Err(ContractError::Unauthorized {});
        }
        Ok(())
    }

    fn find(&self, denom: &String) -> (r: Option<usize>)
        requires
            self.wf(),
        ensures
            r matches Some(i) ==> i < self.records@.len() && self.records@[i as int].denom@
                == denom@,
            r is None ==> !has_denom(self.records@, denom@),
    {
        let mut i: usize = 0;
        while i < self.records.len()
            invariant
                i <= self.records@.len(),
                forall|j: int| 0 <= j < i ==> (#[trigger] self.records@[j]).denom@ != denom@,
            decreases self.records@.len() - i,
        {
            if self.records[i].denom == *denom {
                return Some(i);
            }
            i = i + 1;
        }
        None
    }

    fn upsert(&mut self, data: PriceData)
        requires
            old(self).wf(),
        ensures
            final(self).wf(),
            final(self)@ == old(self)@.insert(data.denom@, data),
            final(self).admin == old(self).admin,
            final(self).oracle_address == old(self).oracle_address,
    {
        let ghost old_recs = self.records@;
        let ghost d = data.denom@;
        let new_key = data.denom.as_str().as_bytes();
        let mut i: usize = 0;
        while i < self.records.len() && bytes_lt(self.records[i].denom.as_str().as_bytes(), new_key)
            invariant
                self.records@ == old_recs,
                sorted_by_key(old_recs),
                new_key@ == key_of(d),
                i <= old_recs.len(),
                forall|j: int| 0 <= j < i ==> lex_lt(key_of((#[trigger] old_recs[j]).denom@), key_of(d)),
            decreases old_recs.len() - i,
        {
            i = i + 1;
        }
        if i < self.records.len() && self.records[i].denom == data.denom {
            self.records.set(i, data);
            proof {
                let recs = self.records@;
                assert forall|a: int, b: int| 0 <= a < b < recs.len() implies lex_lt(
                    key_of(#[trigger] recs[a].denom@),
                    key_of(#[trigger] recs[b].denom@),
                ) by {
                    assert(old_recs[a].denom@ == recs[a].denom@);
                    assert(old_recs[b].denom@ == recs[b].denom@);
                }
                assert forall|e: Seq<char>| #[trigger] has_denom(recs, e) == has_denom(old_recs, e) by {
                    if has_denom(recs, e) {
                        let k = choose|k: int| 0 <= k < recs.len() && (#[trigger] recs[k]).denom@ == e;
                        assert(old_recs[k].denom@ == e);
                    }
                    if has_denom(old_recs, e) {
                        let k = choose|k: int| 0 <= k < old_recs.len() && (#[trigger] old_recs[k]).denom@ == e;
                        assert(recs[k].denom@ == e);
                    }
                }
                assert forall|e: Seq<char>| has_denom(recs, e) implies #[trigger] records_map(recs)[e]
                    == old_recs.update(i as int, data)[index_of(recs, e)] by {}
                lemma_map_entry(recs, i as int);
                assert forall|e: Seq<char>| has_denom(recs, e) && e != d implies #[trigger] records_map(recs)[e]
                    == records_map(old_recs)[e] by {
                    let k = index_of(recs, e);
                    lemma_map_entry(recs, k);
                    lemma_map_entry(old_recs, k);
                }
                assert(self@ =~= old(self)@.insert(d, data));
            }
        } else {
            proof {
                if i < old_recs.len() {
                    let x = old_recs[i as int].denom@;
                    lemma_lex_total(key_of(x), key_of(d));
                    assert(vstd::utf8::decode_utf8(key_of(x)) == x);
                    assert(vstd::utf8::decode_utf8(key_of(d)) == d);
                    assert(lex_lt(key_of(d), key_of(x)));
                }
            }
            self.records.insert(i, data);
            proof {
                let recs = self.records@;
                assert forall|a: int, b: int| 0 <= a < b < recs.len() implies lex_lt(
                    key_of(#[trigger] recs[a].denom@),
                    key_of(#[trigger] recs[b].denom@),
                ) by {
                    if a < i && b > i {
                        assert(recs[b] == old_recs[b - 1]);
                        assert(recs[a] == old_recs[a]);
                    }
                    if a < i && b <= i {
                        assert(recs[a] == old_recs[a]);
                    }
                    if a < i && b < i {
                        assert(recs[b] == old_recs[b]);
                    }
                    if a == i && b == i + 1 {
                        assert(recs[b] == old_recs[a]);
                    }
                    if a == i && b > i + 1 {
                        assert(recs[b] == old_recs[b - 1]);
                        assert(lex_lt(key_of(old_recs[i as int].denom@), key_of(old_recs[b - 1].denom@)));
                        lemma_lex_transitive(key_of(d), key_of(old_recs[i as int].denom@), key_of(old_recs[b - 1].denom@));
                    }
                    if a > i {
                        assert(recs[a] == old_recs[a - 1]);
                        assert(recs[b] == old_recs[b - 1]);
                    }
                }
                assert forall|e: Seq<char>| #[trigger] has_denom(recs, e) == (has_denom(old_recs, e) || e == d) by {
                    if has_denom(recs, e) {
                        let k = choose|k: int| 0 <= k < recs.len() && (#[trigger] recs[k]).denom@ == e;
                        if k < i {
                            assert(old_recs[k].denom@ == e);
                        } else if k > i {
                            assert(old_recs[k - 1].denom@ == e);
                        }
                    }
                    if has_denom(old_recs, e) {
                        let k = choose|k: int| 0 <= k < old_recs.len() && (#[trigger] old_recs[k]).denom@ == e;
                        if k < i {
                            assert(recs[k].denom@ == e);
                        } else {
                            assert(recs[k + 1].denom@ == e);
                        }
                    }
                    if e == d {
                        assert(recs[i as int].denom@ == e);
                    }
                }
                lemma_map_entry(recs, i as int);
                assert forall|e: Seq<char>| has_denom(recs, e) && e != d implies #[trigger] records_map(recs)[e]
                    == records_map(old_recs)[e] by {
                    let k = index_of(recs, e);
                    lemma_map_entry(recs, k);
                    if k < i {
                        lemma_map_entry(old_recs, k);
                    } else {
                        assert(recs[k] == old_recs[k - 1]);
                        lemma_map_entry(old_recs, k - 1);
                    }
                }
                assert(self@ =~= old(self)@.insert(d, data));
            }
        }
    }

    fn remove_record(&mut self, denom: &String)
        requires
            old(self).wf(),
        ensures
            final(self).wf(),
            final(self)@ == old(self)@.remove(denom@),
            final(self).admin == old(self).admin,
            final(self).oracle_address == old(self).oracle_address,
    {
        let ghost old_recs = self.records@;
        let ghost d = denom@;
        match self.find(denom) {
            None => {
                proof {
                    assert(self@ =~= old(self)@.remove(d));
                }
            },
            Some(i) => {
                self.records.remove(i);
                proof {
                    let recs = self.records@;
                    assert forall|a: int, b: int| 0 <= a < b < recs.len() implies lex_lt(
                        key_of(#[trigger] recs[a].denom@),
                        key_of(#[trigger] recs[b].denom@),
                    ) by {
                        let a0 = if a < i { a } else { a + 1 };
                        let b0 = if b < i { b } else { b + 1 };
                        assert(recs[a] == old_recs[a0]);
                        assert(recs[b] == old_recs[b0]);
                    }
                    lemma_index_unique(old_recs, i as int);
                    assert forall|e: Seq<char>| #[trigger] has_denom(recs, e) == (has_denom(old_recs, e) && e != d) by {
                        if has_denom(recs, e) {
                            let k = choose|k: int| 0 <= k < recs.len() && (#[trigger] recs[k]).denom@ == e;
                            let k0 = if k < i { k } else { k + 1 };
                            assert(recs[k] == old_recs[k0]);
                            lemma_index_unique(old_recs, k0);
                        }
                        if has_denom(old_recs, e) && e != d {
                            let k = choose|k: int| 0 <= k < old_recs.len() && (#[trigger] old_recs[k]).denom@ == e;
                            if k < i {
                                assert(recs[k] == old_recs[k]);
                            } else {
                                assert(recs[k - 1] == old_recs[k]);
                            }
                        }
                    }
                    assert forall|e: Seq<char>| has_denom(recs, e) implies #[trigger] records_map(recs)[e]
                        == records_map(old_recs)[e] by {
                        let k = index_of(recs, e);
                        lemma_map_entry(recs, k);
                        let k0 = if k < i { k } else { k + 1 };
                        assert(recs[k] == old_recs[k0]);
                        lemma_map_entry(old_recs, k0);
                    }
                    assert(self@ =~= old(self)@.remove(d));
                }
            },
        }
    }

    /// Applies an admin operation. Every operation fails with `Unauthorized`, and leaves
    /// the registry as it was, unless `sender` is the admin. The oracle address must
    /// already have been validated.
    pub fn execute(&mut self, sender: &String, msg: ExecuteMsg) -> (r: Result<(), ContractError>)
        requires
            old(self).wf(),
        ensures
            final(self).wf(),
            final(self).admin_view() == old(self).admin_view(),
            sender@ != old(self).admin_view() ==> r == Err::<(), ContractError>(
                ContractError::Unauthorized {},
            ) && *final(self) == *old(self),
            sender@ == old(self).admin_view() ==> r is Ok && (match msg {
                ExecuteMsg::UpdateOracleAddress { oracle_address } => final(self).oracle_view()
                    == oracle_address@ && final(self)@ == old(self)@,
                ExecuteMsg::SetData { data } => final(self).oracle_view() == old(self).oracle_view()
                    && final(self)@ == old(self)@.insert(data.denom@, data),
                ExecuteMsg::SetDataBatch { data } => final(self).oracle_view()
                    == old(self).oracle_view() && final(self)@ == upsert_all(old(self)@, data@),
                ExecuteMsg::RemoveData { price_denom } => final(self).oracle_view()
                    == old(self).oracle_view() && final(self)@ == old(self)@.remove(price_denom@),
            }),
    {
        self.check_admin(sender)?;
        match msg {
            ExecuteMsg::UpdateOracleAddress { oracle_address } => {
                self.oracle_address = oracle_address;
            },
            ExecuteMsg::SetData { data } => {
                self.upsert(data);
            },
            ExecuteMsg::SetDataBatch { data } => {
                let mut i: usize = 0;
                while i < data.len()
                    invariant
                        self.wf(),
                        i <= data@.len(),
                        self.admin == old(self).admin,
                        self.oracle_address == old(self).oracle_address,
                        self@ == upsert_all(old(self)@, data@.take(i as int)),
                    decreases data@.len() - i,
                {
                    let item = copy_record(&data[i]);
                    self.upsert(item);
                    proof {
                        let t = data@.take(i as int + 1);
                        assert(t.drop_last() =~= data@.take(i as int));
                    }
                    i = i + 1;
                }
                proof {
                    assert(data@.take(data@.len() as int) =~= data@);
                }
            },
            ExecuteMsg::RemoveData { price_denom } => {
                self.remove_record(&price_denom);
            },
        }
        Ok(())
    }

    pub fn query_config(&self) -> (r: ConfigResponse)
        ensures
            r.admin@ == self.admin_view(),
            r.oracle_address@ == self.oracle_view(),
    {
        ConfigResponse { admin: self.admin.clone(), oracle_address: self.oracle_address.clone() }
    }

    /// Every registered denomination, in ascending key order.
    pub fn all_denoms(&self) -> (r: Vec<String>)
        requires
            self.wf(),
        ensures
            r@.len() == self.record_seq().len(),
            forall|i: int| 0 <= i < r@.len() ==> (#[trigger] r@[i])@ == self.record_seq()[i].denom@,
            forall|i: int| 0 <= i < r@.len() ==> self@.contains_key(#[trigger] r@[i]@),
            forall|d: Seq<char>|
                #[trigger] self@.contains_key(d) ==> exists|i: int| 0 <= i < r@.len() && r@[i]@ == d,
            forall|i: int, j: int|
                0 <= i < j < r@.len() ==> lex_lt(key_of(#[trigger] r@[i]@), key_of(#[trigger] r@[j]@)),
    {
        let mut out: Vec<String> = Vec::new();
        let mut i: usize = 0;
        while i < self.records.len()
            invariant
                self.wf(),
                i <= self.records@.len(),
                out@.len() == i,
                forall|k: int| 0 <= k < i ==> (#[trigger] out@[k])@ == self.records@[k].denom@,
            decreases self.records@.len() - i,
        {
            out.push(self.records[i].denom.clone());
            i = i + 1;
        }
        proof {
            let recs = self.records@;
            assert forall|k: int| 0 <= k < out@.len() implies self@.contains_key(#[trigger] out@[k]@) by {
                lemma_map_entry(recs, k);
            }
            assert forall|a: int, b: int| 0 <= a < b < out@.len() implies lex_lt(
                key_of(#[trigger] out@[a]@),
                key_of(#[trigger] out@[b]@),
            ) by {
                assert(out@[a]@ == recs[a].denom@);
                assert(out@[b]@ == recs[b].denom@);
            }
            assert forall|d: Seq<char>| #[trigger] self@.contains_key(d) implies exists|i: int|
                0 <= i < out@.len() && out@[i]@ == d by {
                let k = choose|k: int| 0 <= k < recs.len() && (#[trigger] recs[k]).denom@ == d;
                assert(out@[k]@ == d);
            }
        }
        out
    }

    /// Whether a record exists for `denom`.
    pub fn check_denom(&self, denom: &String) -> (r: bool)
        requires
            self.wf(),
        ensures
            r == self@.contains_key(denom@),
    {
        self.find(denom).is_some()
    }

    /// The stored price identifier of `denom`.
    pub fn price_id(&self, denom: &String) -> (r: Result<String, ContractError>)
        requires
            self.wf(),
        ensures
            !self@.contains_key(denom@) <==> r == Err::<String, ContractError>(
                ContractError::NotFound {},
            ),
            r is Err ==> r == Err::<String, ContractError>(ContractError::NotFound {}),
            r matches Ok(id) ==> id@ == self@[denom@].price_id@,
    {
        match self.find(denom) {
            None => Err(ContractError::NotFound {}),
            Some(i) => {
                proof {
                    lemma_map_entry(self.records@, i as int);
                }
                Ok(self.records[i].price_id.clone())
            },
        }
    }

    /// The 32-byte feed identifier under which the price of `denom` is queried.
    pub fn feed_id(&self, denom: &String) -> (r: Result<[u8; 32], ContractError>)
        requires
            self.wf(),
        ensures
            !self@.contains_key(denom@) ==> r == Err::<[u8; 32], ContractError>(
                ContractError::NotFound {},
            ),
            self@.contains_key(denom@) ==> (r is Ok <==> is_id_hex(
                key_of(self@[denom@].price_id@),
            )),
            self@.contains_key(denom@) && r is Err ==> r == Err::<[u8; 32], ContractError>(
                ContractError::InvalidPriceId {},
            ),
            r matches Ok(b) ==> hex_decodes_to(key_of(self@[denom@].price_id@), b@),
    {
        let id = self.price_id(denom)?;
        match decode_price_id(id.as_str()) {
            Some(b) => Ok(b),
            None => Err(ContractError::InvalidPriceId {}),
        }
    }
    /// The live price of `denom`, given what the feed service answered for its identifier
    /// at `current_time`.
    pub fn get_price(&self, denom: &String, feed: &PriceFeed, current_time: i64) -> (r: Result<
        PriceResponse,
        ContractError,
    >)
        requires
            self.wf(),
        ensures
            !self@.contains_key(denom@) <==> r == Err::<PriceResponse, ContractError>(
                ContractError::NotFound {},
            ),
            self@.contains_key(denom@) ==> r == match response_of(
                self@[denom@],
                *feed,
                current_time,
            ) {
                Some(p) => Ok(p),
                None => Err(ContractError::PriceUnavailable {}),
            },
    {
        match self.find(denom) {
            None => Err(ContractError::NotFound {}),
            Some(i) => {
                proof {
                    lemma_map_entry(self.records@, i as int);
                }
                self.response_at(i, feed, current_time)
            },
        }
    }

    fn response_at(&self, i: usize, feed: &PriceFeed, current_time: i64) -> (r: Result<
        PriceResponse,
        ContractError,
    >)
        requires
            i < self.records@.len(),
        ensures
            r == match response_of(self.records@[i as int], *feed, current_time) {
                Some(p) => Ok(p),
                None => Err(ContractError::PriceUnavailable {}),
            },
    {
        match current_price(feed, current_time) {
            None => Err(ContractError::PriceUnavailable {}),
            Some(p) => Ok(
                PriceResponse {
                    denom: self.records[i].denom.clone(),
                    decimal: self.records[i].decimal,
                    price: p.price,
                },
            ),
        }
    }

    /// The feed identifiers of all records, in listing order.
    pub fn feed_ids(&self) -> (r: Result<Vec<[u8; 32]>, ContractError>)
        requires
            self.wf(),
        ensures
            r is Ok <==> forall|i: int|
                0 <= i < self.record_seq().len() ==> is_id_hex(
                    key_of(#[trigger] self.record_seq()[i].price_id@),
                ),
            r is Err ==> r == Err::<Vec<[u8; 32]>, ContractError>(ContractError::InvalidPriceId {}),
            r matches Ok(v) ==> v@.len() == self.record_seq().len() && forall|i: int|
                0 <= i < v@.len() ==> hex_decodes_to(
                    key_of(self.record_seq()[i].price_id@),
                    (#[trigger] v@[i])@,
                ),
    {
        let mut out: Vec<[u8; 32]> = Vec::new();
        let mut i: usize = 0;
        while i < self.records.len()
            invariant
                i <= self.records@.len(),
                out@.len() == i,
                forall|k: int| 0 <= k < i ==> is_id_hex(key_of((#[trigger] self.record_seq()[k]).price_id@)),
                forall|k: int|
                    0 <= k < i ==> hex_decodes_to(
                        key_of(self.record_seq()[k].price_id@),
                        (#[trigger] out@[k])@,
                    ),
            decreases self.records@.len() - i,
        {
            match decode_price_id(self.records[i].price_id.as_str()) {
                Some(b) => out.push(b),
                None => {
                    assert(!is_id_hex(key_of(self.record_seq()[i as int].price_id@)));
                    return Err(ContractError::InvalidPriceId {});
                },
            }
            i = i + 1;
        }
        Ok(out)
    }

    /// The live prices of all records, in listing order, given the feed answered for each.
    /// Fails with `PriceUnavailable` if any one of them is not recent.
    pub fn get_all_prices(&self, feeds: &Vec<PriceFeed>, current_time: i64) -> (r: Result<
        Vec<PriceResponse>,
        ContractError,
    >)
        requires
            self.wf(),
            feeds@.len() == self.record_seq().len(),
        ensures
            r is Ok <==> forall|i: int|
                0 <= i < feeds@.len() ==> (#[trigger] response_of(
                    self.record_seq()[i],
                    feeds@[i],
                    current_time,
                )) is Some,
            r is Err ==> r == Err::<Vec<PriceResponse>, ContractError>(
                ContractError::PriceUnavailable {},
            ),
            r matches Ok(v) ==> v@.len() == feeds@.len() && forall|i: int|
                0 <= i < v@.len() ==> Some(#[trigger] v@[i]) == response_of(
                    self.record_seq()[i],
                    feeds@[i],
                    current_time,
                ),
    {
        let mut out: Vec<PriceResponse> = Vec::new();
        let mut i: usize = 0;
        while i < self.records.len()
            invariant
                i <= self.records@.len(),
                feeds@.len() == self.records@.len(),
                out@.len() == i,
                forall|k: int|
                    0 <= k < i ==> Some(#[trigger] out@[k]) == response_of(
                        self.record_seq()[k],
                        feeds@[k],
                        current_time,
                    ),
                forall|k: int|
                    0 <= k < i ==> (#[trigger] response_of(
                        self.record_seq()[k],
                        feeds@[k],
                        current_time,
                    )) is Some,
            decreases self.records@.len() - i,
        {
            match self.response_at(i, &feeds[i], current_time) {
                Ok(p) => out.push(p),
                Err(e) => {
                    assert(response_of(self.record_seq()[i as int], feeds@[i as int], current_time) is None);
                    return Err(e);
                },
            }
            i = i + 1;
        }
        Ok(out)
    }
}

/// Removing a denomination that has no record leaves the records as they are, and
/// removing one twice does no more than removing it once.
pub proof fn lemma_remove_idempotent(records: Map<Seq<char>, PriceData>, denom: Seq<char>)
    ensures
        !records.contains_key(denom) ==> records.remove(denom) == records,
        records.remove(denom).remove(denom) == records.remove(denom),
{
    assert(!records.contains_key(denom) ==> records.remove(denom) =~= records);
    assert(records.remove(denom).remove(denom) =~= records.remove(denom));
}

/// After a record is set, its denomination is registered and the identifier stored
/// under it is the one of the record.
pub proof fn lemma_set_then_lookup(records: Map<Seq<char>, PriceData>, rec: PriceData)
    ensures
        records.insert(rec.denom@, rec).contains_key(rec.denom@),
        records.insert(rec.denom@, rec)[rec.denom@].price_id == rec.price_id,
        forall|d: Seq<char>|
            d != rec.denom@ ==> #[trigger] records.insert(rec.denom@, rec).contains_key(d)
                == records.contains_key(d),
{
}

/// A copy of `p` that keeps every field.
pub fn copy_record(p: &PriceData) -> (r: PriceData)
    ensures
        r == *p,
{
    PriceData { denom: p.denom.clone(), decimal: p.decimal, price_id: p.price_id.clone() }
}

} // verus!
