//! A requester: it asks the broker for token prices, one nonce per request,
//! and keeps the answers that come back.

use crate::chain::{ArgumentsView, CallArguments, CallContext, CallView, ContextView, PromiseCall};
use crate::listing::first_page;
use crate::nonces::{
    has_nonce, lemma_nonce_index, lemma_nonce_map_insert, lemma_nonce_map_update, nonce_index,
    nonce_map, nonces_ascending,
};
use crate::price::{decode_price, price_of, PriceError};
use vstd::prelude::*;
use vstd::string::StringExecFns;

verus! {

/// The gas attached to a request to the broker.
pub const SINGLE_CALL_GAS: u64 = 200_000_000_000_000;

/// What a requester pays for a token price.
pub const PRICE_PAYMENT: u128 = 10;

/// An answer that was received, under the nonce of its request.
#[derive(Debug)]
pub struct ReceivedValue {
    pub nonce: u128,
    pub value: String,
}

impl View for ReceivedValue {
    type V = (u128, Seq<char>);

    open spec fn view(&self) -> (u128, Seq<char>) {
        (self.nonce, self.value@)
    }
}

/// The views of received answers, in order.
pub open spec fn received_view(values: Seq<ReceivedValue>) -> Seq<(u128, Seq<char>)> {
    Seq::new(values.len(), |i: int| values[i]@)
}

/// The answers that a requester has received, at most one for a nonce, in
/// ascending order of their nonces.
#[derive(Debug)]
pub struct ReceivedValues {
    values: Vec<ReceivedValue>,
}

impl View for ReceivedValues {
    type V = Seq<(u128, Seq<char>)>;

    closed spec fn view(&self) -> Seq<(u128, Seq<char>)> {
        received_view(self.values@)
    }
}

impl ReceivedValues {
    /// The answers stand in strictly ascending order of their nonces.
    #[verifier::type_invariant]
    pub open spec fn wf(&self) -> bool {
        nonces_ascending(self@)
    }

    /// No answers.
    pub fn new() -> (received: ReceivedValues)
        ensures
            received@ == Seq::<(u128, Seq<char>)>::empty(),
    {
        let received = ReceivedValues { values: Vec::new() };
        assert(received@ =~= Seq::<(u128, Seq<char>)>::empty());
        received
    }

    /// Where `nonce` stands among the answers, or where it would.
    fn locate(&self, nonce: u128) -> (r: (usize, bool))
        ensures
            r.0 <= self@.len(),
            r.1 == has_nonce(self@, nonce),
            r.1 ==> r.0 < self@.len() && self@[r.0 as int].0 == nonce,
            forall|k: int| 0 <= k < r.0 ==> (#[trigger] self@[k]).0 < nonce,
            !r.1 ==> forall|k: int| r.0 <= k < self@.len() ==> nonce < (#[trigger] self@[k]).0,
    {
        proof {
            use_type_invariant(self);
        }
        let ghost view = self@;
        let mut i: usize = 0;
        while i < self.values.len()
            invariant
                i <= self.values@.len(),
                view == self@,
                view.len() == self.values@.len(),
                nonces_ascending(view),
                forall|k: int| 0 <= k < i ==> (#[trigger] view[k]).0 < nonce,
            decreases self.values@.len() - i,
        {
            let here: u128 = self.values[i].nonce;
            assert(view[i as int].0 == here);
            if here == nonce {
                return (i, true);
            }
            if nonce < here {
                proof {
                    assert forall|k: int| i <= k < view.len() implies nonce < (#[trigger] view[k]).0 by {
                        if i < k {
                            assert(view[i as int].0 < view[k].0);
                        }
                    }
                    if has_nonce(view, nonce) {
                        let k = nonce_index(view, nonce);
                        assert(false);
                    }
                }
                return (i, false);
            }
            i += 1;
        }
        proof {
            if has_nonce(view, nonce) {
                let k = nonce_index(view, nonce);
                assert(false);
            }
        }
        (i, false)
    }

    /// Keeps `value` under `nonce`, in place of what was kept under it
    /// before.
    pub fn insert(&mut self, nonce: u128, value: String)
        ensures
            nonce_map(final(self)@) == nonce_map(old(self)@).insert(nonce, value@),
    {
        proof {
            use_type_invariant(&*self);
        }
        let ghost before = self@;
        let (i, found) = self.locate(nonce);
        let mut values: Vec<ReceivedValue> = Vec::new();
        std::mem::swap(&mut values, &mut self.values);
        assert(received_view(values@) == before);
        if found {
            values.set(i, ReceivedValue { nonce, value });
            proof {
                assert(received_view(values@) =~= before.update(i as int, (nonce, value@)));
                lemma_nonce_map_update(before, i as int, value@);
            }
        } else {
            values.insert(i, ReceivedValue { nonce, value });
            proof {
                assert(received_view(values@) =~= before.insert(i as int, (nonce, value@)));
                lemma_nonce_map_insert(before, i as int, nonce, value@);
            }
        }
        self.values = values;
    }

    /// The answer kept under `nonce`.
    pub fn get(&self, nonce: u128) -> (value: Option<String>)
        ensures
            value is Some == has_nonce(self@, nonce),
            value is Some ==> value->0@ == nonce_map(self@)[nonce],
    {
        proof {
            use_type_invariant(self);
        }
        let (i, found) = self.locate(nonce);
        if found {
            proof {
                lemma_nonce_index(self@, i as int);
            }
            Some(self.values[i].value.clone())
        } else {
            None
        }
    }

    /// The first `max` answers in ascending order of their nonces, or all
    /// of them where there are fewer.
    pub fn first(&self, max: u128) -> (values: Vec<ReceivedValue>)
        ensures
            received_view(values@) == first_page(self@, max as nat),
    {
        let len: usize = self.values.len();
        let count: usize = if max < len as u128 {
            max as usize
        } else {
            len
        };
        let ghost view = self@;
        let mut values: Vec<ReceivedValue> = Vec::new();
        let mut i: usize = 0;
        while i < count
            invariant
                i <= count,
                count <= self.values@.len(),
                view == self@,
                values@.len() == i,
                forall|k: int| 0 <= k < i ==> (#[trigger] values@[k])@ == view[k],
            decreases count - i,
        {
            let kept = &self.values[i];
            values.push(ReceivedValue { nonce: kept.nonce, value: kept.value.clone() });
            i += 1;
        }
        assert(received_view(values@) =~= first_page(view, max as nat));
        values
    }
}

/// A request for a token price: the nonce it was given, and the call to the
/// broker that makes it.
#[derive(Debug)]
pub struct TokenPriceRequest {
    pub nonce: u128,
    pub call: PromiseCall,
}

/// The state of a requester. It is read through the methods of the
/// requester and changed by them alone.
#[derive(Debug)]
pub struct ClientContract {
    oracle_account: String,
    nonce: u128,
    received: ReceivedValues,
}

/// The state of a requester as plain values.
pub struct ClientView {
    /// The broker that is asked.
    pub oracle_account: Seq<char>,
    /// The nonce of the last request.
    pub nonce: u128,
    /// The answers received, in ascending order of their nonces.
    pub received: Seq<(u128, Seq<char>)>,
}

impl View for ClientContract {
    type V = ClientView;

    closed spec fn view(&self) -> ClientView {
        ClientView {
            oracle_account: self.oracle_account@,
            nonce: self.nonce,
            received: self.received@,
        }
    }
}

/// The call that asks the broker `oracle_account` for the price of `symbol`
/// under `nonce`, with the answer to go to `token_price_callback` of the
/// requester itself.
pub open spec fn token_price_call(
    oracle_account: Seq<char>,
    ctx: ContextView,
    symbol: Seq<char>,
    spec_id: Seq<char>,
    nonce: u128,
) -> CallView {
    CallView {
        account_id: oracle_account,
        method_name: "request"@,
        arguments: ArgumentsView::Request {
            payment: PRICE_PAYMENT,
            spec_id,
            callback_address: ctx.current_account_id,
            callback_method: "token_price_callback"@,
            nonce,
            data_version: 1,
            data: symbol,
        },
        amount: 0,
        gas: SINGLE_CALL_GAS,
    }
}

/// The answer kept under `nonce`, or `-1` where there is none.
pub open spec fn received_value(received: Seq<(u128, Seq<char>)>, nonce: u128) -> Seq<char> {
    if has_nonce(received, nonce) {
        nonce_map(received)[nonce]
    } else {
        "-1"@
    }
}

impl ClientContract {
    /// A requester of the broker `oracle_account` that has asked nothing yet.
    pub fn new(oracle_account: String) -> (client: ClientContract)
        ensures
            client@ == (ClientView {
                oracle_account: oracle_account@,
                nonce: 0,
                received: Seq::empty(),
            }),
    {
        ClientContract { oracle_account, nonce: 0, received: ReceivedValues::new() }
    }

    /// The requester with the state that the host had stored for it.
    pub fn from_parts(oracle_account: String, nonce: u128, received: ReceivedValues) -> (client:
        ClientContract)
        ensures
            client@ == (ClientView {
                oracle_account: oracle_account@,
                nonce,
                received: received@,
            }),
    {
        ClientContract { oracle_account, nonce, received }
    }

    /// The broker that is asked.
    pub fn oracle_account(&self) -> (oracle_account: &String)
        ensures
            oracle_account@ == self@.oracle_account,
    {
        &self.oracle_account
    }

    /// The nonce of the last request.
    pub fn nonce(&self) -> (nonce: u128)
        ensures
            nonce == self@.nonce,
    {
        self.nonce
    }

    /// Asks for the price of the token `symbol`: takes the next nonce and
    /// returns it with the call to the broker. Nothing is asked, and nothing
    /// changes, once the nonces are used up.
    pub fn get_token_price(&mut self, ctx: &CallContext, symbol: String, spec_id: String) -> (r:
        Option<TokenPriceRequest>)
        ensures
            match r {
                Some(request) => {
                    &&& old(self)@.nonce < u128::MAX
                    &&& request.nonce == old(self)@.nonce + 1
                    &&& request.call@ == token_price_call(
                        old(self)@.oracle_account,
                        ctx@,
                        symbol@,
                        spec_id@,
                        request.nonce,
                    )
                    &&& final(self)@ == (ClientView { nonce: request.nonce, ..old(self)@ })
                },
                None => old(self)@.nonce == u128::MAX && final(self)@ == old(self)@,
            },
    {
        if self.nonce == u128::MAX {
            return None;
        }
        self.nonce = self.nonce + 1;
        let nonce: u128 = self.nonce;
        Some(
            TokenPriceRequest {
                nonce,
                call: PromiseCall {
                    account_id: self.oracle_account.clone(),
                    method_name: String::from_str("request"),
                    arguments: CallArguments::Request {
                        payment: PRICE_PAYMENT,
                        spec_id,
                        callback_address: ctx.current_account_id.clone(),
                        callback_method: String::from_str("token_price_callback"),
                        nonce,
                        data_version: 1,
                        data: symbol,
                    },
                    amount: 0,
                    gas: SINGLE_CALL_GAS,
                },
            },
        )
    }

    /// Takes the answer to the request with `nonce`: reads the price that
    /// `answer` stands for and keeps it, in place of an answer kept for the
    /// nonce before. An answer that cannot be read is refused, and nothing
    /// changes.
    pub fn token_price_callback(&mut self, nonce: u128, answer: String) -> (r: Result<
        (),
        PriceError,
    >)
        ensures
            match price_of(answer@) {
                Ok(price) => {
                    &&& r is Ok
                    &&& nonce_map(final(self)@.received) == nonce_map(
                        old(self)@.received,
                    ).insert(nonce, price)
                    &&& final(self)@.oracle_account == old(self)@.oracle_account
                    &&& final(self)@.nonce == old(self)@.nonce
                },
                Err(e) => r == Err::<(), PriceError>(e) && final(self)@ == old(self)@,
            },
    {
        match decode_price(&answer) {
            Ok(price) => {
                self.received.insert(nonce, price);
                Ok(())
            },
            Err(e) => Err(e),
        }
    }

    /// The first `max` answers in ascending order of their nonces, or all
    /// of them where there are fewer.
    pub fn get_received_vals(&self, max: u128) -> (values: Vec<ReceivedValue>)
        ensures
            received_view(values@) == first_page(self@.received, max as nat),
    {
        self.received.first(max)
    }

    /// The answer to the request with `nonce`, or `-1` where none has come.
    pub fn get_received_val(&self, nonce: u128) -> (value: String)
        ensures
            value@ == received_value(self@.received, nonce),
    {
        match self.received.get(nonce) {
            Some(value) => value,
            None => String::from_str("-1"),
        }
    }
}

} // verus!
