//! What an operation hands back to the host: instructions to carry out, and
//! attributes and events to record.

use vstd::prelude::*;
use crate::state::coin_views;
use crate::state::Coin;
use crate::state::CoinView;

verus! {

/// The digit `d` as a character.
pub open spec fn digit(d: nat) -> char {
    seq!['0', '1', '2', '3', '4', '5', '6', '7', '8', '9'][d as int]
}

/// The number `n` written in base ten, without sign or leading zero.
pub open spec fn decimal_text(n: nat) -> Seq<char>
    decreases n,
{
    if n < 10 {
        seq![digit(n)]
    } else {
        decimal_text(n / 10).push(digit(n % 10))
    }
}

/// `Uint128::to_string` of cosmwasm_std, whose `Display` is that of the
/// `u128` inside: the amount in base ten.
#[verifier::external_body]
pub(crate) fn amount_text(amount: u128) -> (text: String)
    ensures
        text@ == decimal_text(amount as nat),
{
    cosmwasm_std::Uint128::new(amount).to_string()
}

/// `Coin::to_string` of cosmwasm_std, on a coin of the same amount and
/// denomination. Its `Display` writes the amount in base ten and the
/// denomination behind it, with nothing between them.
#[verifier::external_body]
pub(crate) fn coin_text(coin: &Coin) -> (text: String)
    ensures
        text@ == decimal_text(coin.amount as nat) + coin.denom@,
{
    cosmwasm_std::Coin::new(coin.amount, coin.denom.clone()).to_string()
}

/// A key with its value.
#[derive(Debug, PartialEq, Eq)]
pub struct Attribute {
    pub key: String,
    pub value: String,
}

/// The model of an [`Attribute`].
pub struct AttributeView {
    pub key: Seq<char>,
    pub value: Seq<char>,
}

impl View for Attribute {
    type V = AttributeView;

    open spec fn view(&self) -> AttributeView {
        AttributeView { key: self.key@, value: self.value@ }
    }
}

/// The models of a list of attributes, in order.
pub open spec fn attribute_views(attributes: Seq<Attribute>) -> Seq<AttributeView> {
    attributes.map_values(|a: Attribute| a@)
}

/// A record of something that happened, for those who watch the escrow.
#[derive(Debug, PartialEq, Eq)]
pub struct Event {
    pub ty: String,
    pub attributes: Vec<Attribute>,
}

/// The model of an [`Event`].
pub struct EventView {
    pub ty: Seq<char>,
    pub attributes: Seq<AttributeView>,
}

impl EventView {
    /// An event of type `ty` without attributes.
    pub open spec fn new(ty: Seq<char>) -> EventView {
        EventView { ty, attributes: Seq::empty() }
    }

    /// This event with one more attribute at its end.
    pub open spec fn add_attribute(self, key: Seq<char>, value: Seq<char>) -> EventView {
        EventView { ty: self.ty, attributes: self.attributes.push(AttributeView { key, value }) }
    }
}

impl View for Event {
    type V = EventView;

    open spec fn view(&self) -> EventView {
        EventView { ty: self.ty@, attributes: attribute_views(self.attributes@) }
    }
}

impl Event {
    /// An event of type `ty` without attributes.
    pub fn new(ty: &str) -> (event: Event)
        ensures
            event@ == EventView::new(ty@),
    {
        let event = Event { ty: ty.to_string(), attributes: Vec::new() };
        assert(event@.attributes =~= Seq::<AttributeView>::empty());
        event
    }

    /// This event with one more attribute at its end.
    pub fn add_attribute(self, key: &str, value: String) -> (event: Event)
        ensures
            event@ == self@.add_attribute(key@, value@),
    {
        let ghost before = self@;
        let mut event = self;
        event.attributes.push(Attribute { key: key.to_string(), value });
        assert(event@.attributes =~= before.attributes.push(
            AttributeView { key: key@, value: value@ },
        ));
        event
    }
}

/// The models of a list of events, in order.
pub open spec fn event_views(events: Seq<Event>) -> Seq<EventView> {
    events.map_values(|e: Event| e@)
}

/// The order to split a commission among the payees.
#[derive(Clone, Copy, Debug, PartialEq, Eq, Structural)]
pub struct DisburseReward {
    pub amount: u128,
}

/// Something that the host is to carry out once the operation has
/// succeeded.
#[derive(Debug, PartialEq, Eq)]
pub enum Instruction {
    /// Call `contract_addr` with the encoded message `msg` and `funds`.
    Execute { contract_addr: String, msg: Vec<u8>, funds: Vec<Coin> },
    /// Call the commission recipient `contract_addr` with `reward`, which
    /// the host encodes, and `funds`.
    Disburse { contract_addr: String, reward: DisburseReward, funds: Vec<Coin> },
    /// Pay `amount` to `to_address`.
    Send { to_address: String, amount: Vec<Coin> },
}

/// The model of an [`Instruction`].
pub enum InstructionView {
    Execute { contract_addr: Seq<char>, msg: Seq<u8>, funds: Seq<CoinView> },
    Disburse { contract_addr: Seq<char>, reward: DisburseReward, funds: Seq<CoinView> },
    Send { to_address: Seq<char>, amount: Seq<CoinView> },
}

impl View for Instruction {
    type V = InstructionView;

    open spec fn view(&self) -> InstructionView {
        match self {
            Instruction::Execute { contract_addr, msg, funds } => InstructionView::Execute {
                contract_addr: contract_addr@,
                msg: msg@,
                funds: coin_views(funds@),
            },
            Instruction::Disburse { contract_addr, reward, funds } => InstructionView::Disburse {
                contract_addr: contract_addr@,
                reward: *reward,
                funds: coin_views(funds@),
            },
            Instruction::Send { to_address, amount } => InstructionView::Send {
                to_address: to_address@,
                amount: coin_views(amount@),
            },
        }
    }
}

/// The models of a list of instructions, in order.
pub open spec fn instruction_views(instructions: Seq<Instruction>) -> Seq<InstructionView> {
    instructions.map_values(|m: Instruction| m@)
}

/// A list that holds the one coin `amount` of `denom`.
pub open spec fn one_coin(amount: u128, denom: Seq<char>) -> Seq<CoinView> {
    seq![CoinView { denom, amount }]
}

/// A list that holds the one coin `amount` of `denom`.
pub fn coins(amount: u128, denom: &str) -> (list: Vec<Coin>)
    ensures
        coin_views(list@) == one_coin(amount, denom@),
{
    let mut list: Vec<Coin> = Vec::new();
    list.push(Coin { denom: denom.to_string(), amount });
    assert(coin_views(list@) =~= one_coin(amount, denom@));
    list
}

/// The answer of an operation that succeeded.
#[derive(Debug, PartialEq, Eq)]
pub struct Response {
    pub messages: Vec<Instruction>,
    pub attributes: Vec<Attribute>,
    pub events: Vec<Event>,
}

/// The model of a [`Response`].
pub struct ResponseView {
    pub messages: Seq<InstructionView>,
    pub attributes: Seq<AttributeView>,
    pub events: Seq<EventView>,
}

impl ResponseView {
    /// The answer that holds nothing.
    pub open spec fn new() -> ResponseView {
        ResponseView { messages: Seq::empty(), attributes: Seq::empty(), events: Seq::empty() }
    }

    /// This answer with one more instruction at the end of its list.
    pub open spec fn add_message(self, msg: InstructionView) -> ResponseView {
        ResponseView { messages: self.messages.push(msg), ..self }
    }

    /// This answer with one more attribute at the end of its list.
    pub open spec fn add_attribute(self, key: Seq<char>, value: Seq<char>) -> ResponseView {
        ResponseView { attributes: self.attributes.push(AttributeView { key, value }), ..self }
    }

    /// This answer with one more event at the end of its list.
    pub open spec fn add_event(self, event: EventView) -> ResponseView {
        ResponseView { events: self.events.push(event), ..self }
    }
}

impl View for Response {
    type V = ResponseView;

    open spec fn view(&self) -> ResponseView {
        ResponseView {
            messages: instruction_views(self.messages@),
            attributes: attribute_views(self.attributes@),
            events: event_views(self.events@),
        }
    }
}

impl Response {
    /// The answer that holds nothing.
    pub fn new() -> (res: Response)
        ensures
            res@ == ResponseView::new(),
    {
        let res = Response { messages: Vec::new(), attributes: Vec::new(), events: Vec::new() };
        assert(res@.messages =~= Seq::<InstructionView>::empty());
        assert(res@.attributes =~= Seq::<AttributeView>::empty());
        assert(res@.events =~= Seq::<EventView>::empty());
        res
    }

    /// This answer with one more instruction at the end of its list.
    pub fn add_message(self, msg: Instruction) -> (res: Response)
        ensures
            res@ == self@.add_message(msg@),
    {
        let mut res = self;
        res.push_message(msg);
        res
    }

    /// Puts one more instruction at the end of the list.
    pub fn push_message(&mut self, msg: Instruction)
        ensures
            final(self)@ == old(self)@.add_message(msg@),
    {
        let ghost before = self@;
        self.messages.push(msg);
        assert(self@.messages =~= before.messages.push(msg@));
    }

    /// This answer with one more attribute at the end of its list.
    pub fn add_attribute(self, key: &str, value: String) -> (res: Response)
        ensures
            res@ == self@.add_attribute(key@, value@),
    {
        let ghost before = self@;
        let mut res = self;
        res.attributes.push(Attribute { key: key.to_string(), value });
        assert(res@.attributes =~= before.attributes.push(
            AttributeView { key: key@, value: value@ },
        ));
        res
    }

    /// This answer with one more event at the end of its list.
    pub fn add_event(self, event: Event) -> (res: Response)
        ensures
            res@ == self@.add_event(event@),
    {
        let mut res = self;
        res.push_event(event);
        res
    }

    /// Puts one more event at the end of the list.
    pub fn push_event(&mut self, event: Event)
        ensures
            final(self)@ == old(self)@.add_event(event@),
    {
        let ghost before = self@;
        self.events.push(event);
        assert(self@.events =~= before.events.push(event@));
    }
}

} // verus!
