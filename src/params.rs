//! The closed value sets of the request parameters, and the identifiers
//! and collections that carry their own rules.
use vstd::prelude::*;

use crate::wire::{form_of, texts_of, FormPairs};

verus! {

/// Three-letter ISO currency code, written in lowercase on the wire.
#[derive(Clone, Copy, Debug, PartialEq, Eq, Structural)]
pub enum Currency {
    Usd,
    Eur,
    Gbp,
    Jpy,
    Cad,
    Aud,
    Chf,
    Cny,
    Hkd,
    Sgd,
    Nzd,
    Sek,
    Nok,
    Dkk,
    Pln,
    Czk,
    Huf,
    Mxn,
    Brl,
    Inr,
}

impl Currency {
    /// The token that stands for this value on the wire.
    pub open spec fn token(self) -> Seq<char> {
        match self {
            Currency::Usd => "usd"@,
            Currency::Eur => "eur"@,
            Currency::Gbp => "gbp"@,
            Currency::Jpy => "jpy"@,
            Currency::Cad => "cad"@,
            Currency::Aud => "aud"@,
            Currency::Chf => "chf"@,
            Currency::Cny => "cny"@,
            Currency::Hkd => "hkd"@,
            Currency::Sgd => "sgd"@,
            Currency::Nzd => "nzd"@,
            Currency::Sek => "sek"@,
            Currency::Nok => "nok"@,
            Currency::Dkk => "dkk"@,
            Currency::Pln => "pln"@,
            Currency::Czk => "czk"@,
            Currency::Huf => "huf"@,
            Currency::Mxn => "mxn"@,
            Currency::Brl => "brl"@,
            Currency::Inr => "inr"@,
        }
    }

    pub fn as_str(&self) -> (r: &'static str)
        ensures
            r@ == self.token(),
    {
        match self {
            Currency::Usd => "usd",
            Currency::Eur => "eur",
            Currency::Gbp => "gbp",
            Currency::Jpy => "jpy",
            Currency::Cad => "cad",
            Currency::Aud => "aud",
            Currency::Chf => "chf",
            Currency::Cny => "cny",
            Currency::Hkd => "hkd",
            Currency::Sgd => "sgd",
            Currency::Nzd => "nzd",
            Currency::Sek => "sek",
            Currency::Nok => "nok",
            Currency::Dkk => "dkk",
            Currency::Pln => "pln",
            Currency::Czk => "czk",
            Currency::Huf => "huf",
            Currency::Mxn => "mxn",
            Currency::Brl => "brl",
            Currency::Inr => "inr",
        }
    }
}

/// The language a checkout page is shown in; `auto` follows the browser.
#[derive(Clone, Copy, Debug, PartialEq, Eq, Structural)]
pub enum CheckoutSessionLocale {
    Auto,
    Da,
    De,
    En,
    Es,
    Fi,
    Fr,
    It,
    Ja,
    Ms,
    Nb,
    Nl,
    Pl,
    Pt,
    Sv,
    Zh,
}

impl CheckoutSessionLocale {
    /// The token that stands for this value on the wire.
    pub open spec fn token(self) -> Seq<char> {
        match self {
            CheckoutSessionLocale::Auto => "auto"@,
            CheckoutSessionLocale::Da => "da"@,
            CheckoutSessionLocale::De => "de"@,
            CheckoutSessionLocale::En => "en"@,
            CheckoutSessionLocale::Es => "es"@,
            CheckoutSessionLocale::Fi => "fi"@,
            CheckoutSessionLocale::Fr => "fr"@,
            CheckoutSessionLocale::It => "it"@,
            CheckoutSessionLocale::Ja => "ja"@,
            CheckoutSessionLocale::Ms => "ms"@,
            CheckoutSessionLocale::Nb => "nb"@,
            CheckoutSessionLocale::Nl => "nl"@,
            CheckoutSessionLocale::Pl => "pl"@,
            CheckoutSessionLocale::Pt => "pt"@,
            CheckoutSessionLocale::Sv => "sv"@,
            CheckoutSessionLocale::Zh => "zh"@,
        }
    }

    pub fn as_str(&self) -> (r: &'static str)
        ensures
            r@ == self.token(),
    {
        match self {
            CheckoutSessionLocale::Auto => "auto",
            CheckoutSessionLocale::Da => "da",
            CheckoutSessionLocale::De => "de",
            CheckoutSessionLocale::En => "en",
            CheckoutSessionLocale::Es => "es",
            CheckoutSessionLocale::Fi => "fi",
            CheckoutSessionLocale::Fr => "fr",
            CheckoutSessionLocale::It => "it",
            CheckoutSessionLocale::Ja => "ja",
            CheckoutSessionLocale::Ms => "ms",
            CheckoutSessionLocale::Nb => "nb",
            CheckoutSessionLocale::Nl => "nl",
            CheckoutSessionLocale::Pl => "pl",
            CheckoutSessionLocale::Pt => "pt",
            CheckoutSessionLocale::Sv => "sv",
            CheckoutSessionLocale::Zh => "zh",
        }
    }
}

/// What a checkout session is for.
#[derive(Clone, Copy, Debug, PartialEq, Eq, Structural)]
pub enum CheckoutSessionMode {
    Payment,
    Setup,
    Subscription,
}

impl CheckoutSessionMode {
    /// The token that stands for this value on the wire.
    pub open spec fn token(self) -> Seq<char> {
        match self {
            CheckoutSessionMode::Payment => "payment"@,
            CheckoutSessionMode::Setup => "setup"@,
            CheckoutSessionMode::Subscription => "subscription"@,
        }
    }

    pub fn as_str(&self) -> (r: &'static str)
        ensures
            r@ == self.token(),
    {
        match self {
            CheckoutSessionMode::Payment => "payment",
            CheckoutSessionMode::Setup => "setup",
            CheckoutSessionMode::Subscription => "subscription",
        }
    }
}

/// How the submit button of a checkout page is worded.
#[derive(Clone, Copy, Debug, PartialEq, Eq, Structural)]
pub enum CheckoutSessionSubmitType {
    Auto,
    Book,
    Donate,
    Pay,
}

impl CheckoutSessionSubmitType {
    /// The token that stands for this value on the wire.
    pub open spec fn token(self) -> Seq<char> {
        match self {
            CheckoutSessionSubmitType::Auto => "auto"@,
            CheckoutSessionSubmitType::Book => "book"@,
            CheckoutSessionSubmitType::Donate => "donate"@,
            CheckoutSessionSubmitType::Pay => "pay"@,
        }
    }

    pub fn as_str(&self) -> (r: &'static str)
        ensures
            r@ == self.token(),
    {
        match self {
            CheckoutSessionSubmitType::Auto => "auto",
            CheckoutSessionSubmitType::Book => "book",
            CheckoutSessionSubmitType::Donate => "donate",
            CheckoutSessionSubmitType::Pay => "pay",
        }
    }
}

/// Whether checkout asks for the customer's billing address.
#[derive(Clone, Copy, Debug, PartialEq, Eq, Structural)]
pub enum BillingAddressCollection {
    Auto,
    Required,
}

impl BillingAddressCollection {
    /// The token that stands for this value on the wire.
    pub open spec fn token(self) -> Seq<char> {
        match self {
            BillingAddressCollection::Auto => "auto"@,
            BillingAddressCollection::Required => "required"@,
        }
    }

    pub fn as_str(&self) -> (r: &'static str)
        ensures
            r@ == self.token(),
    {
        match self {
            BillingAddressCollection::Auto => "auto",
            BillingAddressCollection::Required => "required",
        }
    }
}

/// What a request was refused for when it was built.
#[derive(Clone, Copy, Debug, PartialEq, Eq, Structural)]
pub enum ParamsError {
    /// A session must accept at least one payment method type.
    EmptyPaymentMethodTypes,
    /// A line item's unit amount is below zero.
    NegativeAmount,
    /// A line item's quantity is zero.
    ZeroQuantity,
    /// A transfer's destination account is empty.
    EmptyDestination,
}

/// The identifier of a customer, handed through unread.
#[derive(Clone, Debug)]
pub struct CustomerId {
    pub id: String,
}

impl CustomerId {
    pub fn new(id: String) -> (r: CustomerId)
        ensures
            r.id@ == id@,
    {
        CustomerId { id }
    }

    pub fn as_str(&self) -> (r: &str)
        ensures
            r@ == self.id@,
    {
        self.id.as_str()
    }
}

/// The payment method types a session accepts: never empty.
#[derive(Debug)]
pub struct PaymentMethodTypes {
    types: Vec<String>,
}

impl View for PaymentMethodTypes {
    type V = Seq<Seq<char>>;

    closed spec fn view(&self) -> Seq<Seq<char>> {
        texts_of(self.types@)
    }
}

impl PaymentMethodTypes {
    #[verifier::type_invariant]
    closed spec fn inv(self) -> bool {
        self.types@.len() > 0
    }

    /// Takes the given types in order; an empty list is refused.
    pub fn new(types: Vec<String>) -> (r: Result<PaymentMethodTypes, ParamsError>)
        ensures
            types@.len() == 0 <==> r == Err::<PaymentMethodTypes, ParamsError>(
                ParamsError::EmptyPaymentMethodTypes,
            ),
            types@.len() > 0 <==> r is Ok,
            r is Ok ==> r->Ok_0@ == texts_of(types@),
    {
        if types.len() == 0 {
            Err(ParamsError::EmptyPaymentMethodTypes)
        } else {
            assert(types@.len() > 0);
            Ok(PaymentMethodTypes { types })
        }
    }

    pub fn as_vec(&self) -> (r: &Vec<String>)
        ensures
            texts_of(r@) == self@,
    {
        &self.types
    }

    pub fn len(&self) -> (r: usize)
        ensures
            r == self@.len(),
            r > 0,
    {
        proof {
            use_type_invariant(self);
        }
        self.types.len()
    }
}

impl Clone for PaymentMethodTypes {
    fn clone(&self) -> (r: PaymentMethodTypes)
        ensures
            r@ == self@,
    {
        proof {
            use_type_invariant(self);
        }
        let mut types: Vec<String> = Vec::new();
        let mut i: usize = 0;
        while i < self.types.len()
            invariant
                i <= self.types@.len(),
                texts_of(types@) == texts_of(self.types@.take(i as int)),
            decreases self.types@.len() - i,
        {
            let ghost before = types@;
            let t = self.types[i].clone();
            types.push(t);
            assert(types@ =~= before.push(t));
            assert(self.types@.take(i + 1) =~= self.types@.take(i as int).push(self.types@[i as int]));
            assert(texts_of(types@) =~= texts_of(before).push(t@));
            assert(texts_of(self.types@.take(i + 1)) =~= texts_of(self.types@.take(i as int)).push(
                self.types@[i as int]@,
            ));
            i = i + 1;
        }
        assert(self.types@.take(self.types@.len() as int) =~= self.types@);
        assert(types@.len() == texts_of(types@).len());
        PaymentMethodTypes { types }
    }
}

/// No key occurs twice among the entries.
pub open spec fn keys_unique(entries: FormPairs) -> bool {
    forall|i: int, j: int|
        0 <= i < entries.len() && 0 <= j < entries.len() && i != j ==> #[trigger] entries[i].0
            != #[trigger] entries[j].0
}

/// The entries after setting `key` to `value`: the value of an existing key
/// is replaced where it stands, a new key goes last.
pub open spec fn with_entry(entries: FormPairs, key: Seq<char>, value: Seq<char>) -> FormPairs {
    if exists|i: int| 0 <= i < entries.len() && entries[i].0 == key {
        let i = choose|i: int| 0 <= i < entries.len() && entries[i].0 == key;
        entries.update(i, (key, value))
    } else {
        entries.push((key, value))
    }
}

/// Free-form string metadata: keys are unique and keep the order in which
/// they were first set.
#[derive(Debug)]
pub struct Metadata {
    entries: Vec<(String, String)>,
}

impl View for Metadata {
    type V = FormPairs;

    closed spec fn view(&self) -> FormPairs {
        form_of(self.entries@)
    }
}

impl Clone for Metadata {
    fn clone(&self) -> (r: Metadata)
        ensures
            r@ == self@,
    {
        proof {
            use_type_invariant(self);
        }
        let mut entries: Vec<(String, String)> = Vec::new();
        let mut i: usize = 0;
        while i < self.entries.len()
            invariant
                i <= self.entries@.len(),
                form_of(entries@) == form_of(self.entries@.take(i as int)),
            decreases self.entries@.len() - i,
        {
            let ghost before = entries@;
            let e = (self.entries[i].0.clone(), self.entries[i].1.clone());
            entries.push(e);
            assert(entries@ =~= before.push(e));
            assert(self.entries@.take(i + 1) =~= self.entries@.take(i as int).push(self.entries@[i as int]));
            assert(form_of(entries@) =~= form_of(before).push((e.0@, e.1@)));
            assert(form_of(self.entries@.take(i + 1)) =~= form_of(self.entries@.take(i as int)).push(
                (self.entries@[i as int].0@, self.entries@[i as int].1@),
            ));
            i = i + 1;
        }
        assert(self.entries@.take(self.entries@.len() as int) =~= self.entries@);
        Metadata { entries }
    }
}

impl Metadata {
    #[verifier::type_invariant]
    closed spec fn inv(self) -> bool {
        keys_unique(form_of(self.entries@))
    }

    pub fn new() -> (r: Metadata)
        ensures
            r@ == Seq::<(Seq<char>, Seq<char>)>::empty(),
    {
        let entries: Vec<(String, String)> = Vec::new();
        assert(form_of(entries@) =~= Seq::<(Seq<char>, Seq<char>)>::empty());
        Metadata { entries }
    }

    /// Sets `key` to `value`, replacing the value the key had.
    pub fn insert(&mut self, key: String, value: String)
        ensures
            final(self)@ == with_entry(old(self)@, key@, value@),
    {
        proof {
            use_type_invariant(&*self);
        }
        let ghost old_view = self@;
        let mut next: Vec<(String, String)> = Vec::new();
        let mut found: bool = false;
        let mut i: usize = 0;
        while i < self.entries.len()
            invariant
                i <= self.entries@.len(),
                self@ == old_view,
                keys_unique(old_view),
                next@.len() == i,
                found <==> exists|j: int| 0 <= j < i && old_view[j].0 == key@,
                forall|j: int|
                    0 <= j < i ==> #[trigger] form_of(next@)[j] == (if old_view[j].0 == key@ {
                        (key@, value@)
                    } else {
                        old_view[j]
                    }),
            decreases self.entries@.len() - i,
        {
            let ghost before = next@;
            assert(old_view[i as int] == (self.entries@[i as int].0@, self.entries@[i as int].1@));
            if self.entries[i].0 == key {
                next.push((key.clone(), value.clone()));
                found = true;
            } else {
                next.push((self.entries[i].0.clone(), self.entries[i].1.clone()));
            }
            assert forall|j: int| 0 <= j < i + 1 implies #[trigger] form_of(next@)[j] == (if old_view[j].0
                == key@ {
                (key@, value@)
            } else {
                old_view[j]
            }) by {
                assert(form_of(next@)[j] == (next@[j].0@, next@[j].1@));
                if j < i {
                    assert(next@[j] == before[j]);
                    assert(form_of(before)[j] == (before[j].0@, before[j].1@));
                }
            }
            assert(found <==> exists|j: int| 0 <= j < i + 1 && old_view[j].0 == key@) by {
                if old_view[i as int].0 == key@ {
                    assert(0 <= i < i + 1 && old_view[i as int].0 == key@);
                }
            }
            i = i + 1;
        }
        if !found {
            let ghost before = next@;
            next.push((key, value));
            assert forall|j: int| 0 <= j < old_view.len() implies #[trigger] form_of(next@)[j]
                == old_view[j] by {
                assert(next@[j] == before[j]);
                assert(form_of(before)[j] == (before[j].0@, before[j].1@));
                assert(form_of(next@)[j] == (next@[j].0@, next@[j].1@));
                assert(old_view[j].0 != key@);
            }
            assert(form_of(next@) =~= old_view.push((key@, value@)));
        } else {
            proof {
                let c = choose|c: int| 0 <= c < old_view.len() && old_view[c].0 == key@;
                assert forall|j: int| 0 <= j < old_view.len() implies #[trigger] form_of(next@)[j]
                    == old_view.update(c, (key@, value@))[j] by {
                    if j != c && old_view[j].0 == key@ {
                        assert(old_view[j].0 == old_view[c].0);
                    }
                }
                assert(form_of(next@) =~= old_view.update(c, (key@, value@)));
            }
        }
        assert(keys_unique(form_of(next@))) by {
            assert forall|a: int, b: int|
                0 <= a < form_of(next@).len() && 0 <= b < form_of(next@).len() && a != b implies
                #[trigger] form_of(next@)[a].0 != #[trigger] form_of(next@)[b].0 by {
                if a < old_view.len() && b < old_view.len() {
                    assert(old_view[a].0 != old_view[b].0);
                }
            }
        }
        *self = Metadata { entries: next };
    }

    pub fn len(&self) -> (r: usize)
        ensures
            r == self@.len(),
            keys_unique(self@),
    {
        proof {
            use_type_invariant(self);
        }
        self.entries.len()
    }

    /// The entries, in the order their keys were first set.
    pub fn entries(&self) -> (r: &Vec<(String, String)>)
        ensures
            form_of(r@) == self@,
            keys_unique(self@),
    {
        proof {
            use_type_invariant(self);
        }
        &self.entries
    }
}

} // verus!
