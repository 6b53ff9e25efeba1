//! The parameters of a checkout session's create request, and their
//! encoding as a flat form.
use vstd::prelude::*;

use crate::params::{
    BillingAddressCollection, CheckoutSessionLocale, CheckoutSessionMode,
    CheckoutSessionSubmitType, Currency, CustomerId, Metadata, ParamsError, PaymentMethodTypes,
};
use crate::wire::{
    amount_of, concat_groups, decimal, decimal_text, form_of, indexed, keyed, lemma_concat_groups_step,
    nest, nest_key, optional, push_indexed, push_keyed, push_optional_amount, push_optional_text,
    push_optional_token, push_single, signed_decimal, signed_decimal_text, single, text_of, texts_of,
    FormPairs,
};

verus! {

/// One purchasable entry of a session.
#[derive(Clone, Debug)]
pub struct CheckoutSessionLineItem {
    /// The amount collected per unit, in the currency's smallest unit.
    pub amount: i64,
    pub currency: Currency,
    pub name: String,
    /// How many units are bought.
    pub quantity: u64,
    pub description: Option<String>,
    /// Image URLs shown with the item.
    pub images: Option<Vec<String>>,
}

/// The parameters of a transfer made when the payment succeeds.
#[derive(Clone, Debug)]
pub struct CheckoutTransferData {
    /// The account the funds go to; never empty.
    pub destination: String,
    pub amount: Option<u64>,
}

/// The payment-specific parameters of a session in payment mode.
#[derive(Clone, Debug)]
pub struct CheckoutPaymentIntentData {
    pub application_fee_amount: Option<u64>,
    pub description: Option<String>,
    pub metadata: Option<Metadata>,
    pub on_behalf_of: Option<String>,
    pub receipt_email: Option<String>,
    pub statement_descriptor: Option<String>,
    pub statement_descriptor_suffix: Option<String>,
    pub transfer_data: Option<CheckoutTransferData>,
    pub transfer_group: Option<String>,
}

/// The parameters of the request that creates a checkout session.
#[derive(Clone, Debug)]
pub struct CreateCheckoutSession {
    /// Where the customer goes when they cancel.
    pub cancel_url: String,
    pub payment_method_types: PaymentMethodTypes,
    /// Where the customer goes once the payment or subscription succeeded.
    pub success_url: String,
    pub client_reference_id: Option<String>,
    pub customer: Option<CustomerId>,
    pub customer_email: Option<String>,
    pub billing_address_collection: Option<BillingAddressCollection>,
    pub line_items: Option<Vec<CheckoutSessionLineItem>>,
    pub locale: Option<CheckoutSessionLocale>,
    pub mode: Option<CheckoutSessionMode>,
    /// Meaningful in payment mode only; the service judges that.
    pub payment_intent_data: Option<CheckoutPaymentIntentData>,
    /// Not meaningful for subscriptions; the service judges that.
    pub submit_type: Option<CheckoutSessionSubmitType>,
}

/// A checkout session, as the service names it.
#[derive(Clone, Debug)]
pub struct CheckoutSession {
    pub id: String,
}

/// A form to post to a path of the service.
#[derive(Debug)]
pub struct FormRequest {
    pub path: String,
    pub body: Vec<(String, String)>,
}

pub open spec fn customer_text(v: Option<CustomerId>) -> Option<Seq<char>> {
    match v {
        Some(c) => Some(c.id@),
        None => None,
    }
}

pub open spec fn billing_token(v: Option<BillingAddressCollection>) -> Option<Seq<char>> {
    match v {
        Some(b) => Some(b.token()),
        None => None,
    }
}

pub open spec fn locale_token(v: Option<CheckoutSessionLocale>) -> Option<Seq<char>> {
    match v {
        Some(l) => Some(l.token()),
        None => None,
    }
}

pub open spec fn mode_token(v: Option<CheckoutSessionMode>) -> Option<Seq<char>> {
    match v {
        Some(m) => Some(m.token()),
        None => None,
    }
}

pub open spec fn submit_token(v: Option<CheckoutSessionSubmitType>) -> Option<Seq<char>> {
    match v {
        Some(t) => Some(t.token()),
        None => None,
    }
}

/// The groups of the line items below `path`: item `i` under the name `i`.
pub open spec fn line_item_groups(path: Seq<char>, items: Seq<CheckoutSessionLineItem>) -> Seq<
    (Seq<char>, FormPairs),
> {
    Seq::new(
        items.len(),
        |i: int| (decimal(i as nat), items[i].form_at(nest(path, decimal(i as nat)))),
    )
}

/// The entries of an optional list of line items below `path`.
pub open spec fn line_items_form(path: Seq<char>, items: Option<Vec<CheckoutSessionLineItem>>) -> FormPairs {
    match items {
        Some(v) => concat_groups(line_item_groups(path, v@)),
        None => Seq::empty(),
    }
}

impl CheckoutSessionLineItem {
    /// The fields' entries at `prefix`, in field order, each tagged with its name.
    pub open spec fn field_groups(&self, prefix: Seq<char>) -> Seq<(Seq<char>, FormPairs)> {
        seq![
            ("amount"@, single(prefix, "amount"@, signed_decimal(self.amount as int))),
            ("currency"@, single(prefix, "currency"@, self.currency.token())),
            ("name"@, single(prefix, "name"@, self.name@)),
            ("quantity"@, single(prefix, "quantity"@, decimal(self.quantity as nat))),
            ("description"@, optional(prefix, "description"@, text_of(self.description))),
            ("images"@, match self.images {
                Some(v) => indexed(nest(prefix, "images"@), texts_of(v@)),
                None => Seq::empty(),
            }),
        ]
    }

    /// The item's entries with every key placed below `prefix`.
    pub open spec fn form_at(&self, prefix: Seq<char>) -> FormPairs {
        concat_groups(self.field_groups(prefix))
    }

    /// A line item with no description or images; a negative amount or a
    /// zero quantity is refused.
    pub fn new(amount: i64, currency: Currency, name: String, quantity: u64) -> (r: Result<
        CheckoutSessionLineItem,
        ParamsError,
    >)
        ensures
            amount < 0 <==> r == Err::<CheckoutSessionLineItem, ParamsError>(ParamsError::NegativeAmount),
            amount >= 0 && quantity == 0 <==> r == Err::<CheckoutSessionLineItem, ParamsError>(
                ParamsError::ZeroQuantity,
            ),
            amount >= 0 && quantity > 0 <==> r is Ok,
            r is Ok ==> ({
                let item = r->Ok_0;
                &&& item.amount == amount
                &&& item.currency == currency
                &&& item.name@ == name@
                &&& item.quantity == quantity
                &&& item.description is None
                &&& item.images is None
            }),
    {
        if amount < 0 {
            Err(ParamsError::NegativeAmount)
        } else if quantity == 0 {
            Err(ParamsError::ZeroQuantity)
        } else {
            Ok(CheckoutSessionLineItem { amount, currency, name, quantity, description: None, images: None })
        }
    }

    /// Writes the item's entries below `prefix`.
    pub fn encode_at(&self, prefix: &str, out: &mut Vec<(String, String)>)
        ensures
            form_of(final(out)@) == form_of(old(out)@) + self.form_at(prefix@),
    {
        let ghost g = self.field_groups(prefix@);
        let ghost start = form_of(out@);
        assert(start == start + concat_groups(g.take(0))) by {
            assert(start =~= start + Seq::<(Seq<char>, Seq<char>)>::empty());
        }
        let ghost b = form_of(out@);
        push_single(out, prefix, "amount", signed_decimal_text(self.amount));
        proof { lemma_concat_groups_step(start, g, 0, b, form_of(out@)); }
        let ghost b = form_of(out@);
        push_single(out, prefix, "currency", String::from_str(self.currency.as_str()));
        proof { lemma_concat_groups_step(start, g, 1, b, form_of(out@)); }
        let ghost b = form_of(out@);
        push_single(out, prefix, "name", self.name.clone());
        proof { lemma_concat_groups_step(start, g, 2, b, form_of(out@)); }
        let ghost b = form_of(out@);
        push_single(out, prefix, "quantity", decimal_text(self.quantity));
        proof { lemma_concat_groups_step(start, g, 3, b, form_of(out@)); }
        let ghost b = form_of(out@);
        push_optional_text(out, prefix, "description", &self.description);
        proof { lemma_concat_groups_step(start, g, 4, b, form_of(out@)); }
        let ghost b = form_of(out@);
        match &self.images {
            Some(v) => {
                let path = nest_key(prefix, "images");
                push_indexed(out, path.as_str(), v);
            },
            None => {
                assert(form_of(out@) =~= b + Seq::<(Seq<char>, Seq<char>)>::empty());
            },
        }
        proof {
            lemma_concat_groups_step(start, g, 5, b, form_of(out@));
            assert(g.take(6) =~= g);
        }
    }
}

impl CheckoutTransferData {
    pub open spec fn field_groups(&self, prefix: Seq<char>) -> Seq<(Seq<char>, FormPairs)> {
        seq![
            ("destination"@, single(prefix, "destination"@, self.destination@)),
            ("amount"@, optional(prefix, "amount"@, amount_of(self.amount))),
        ]
    }

    pub open spec fn form_at(&self, prefix: Seq<char>) -> FormPairs {
        concat_groups(self.field_groups(prefix))
    }

    /// Transfer data with no amount; an empty destination is refused.
    pub fn new(destination: String) -> (r: Result<CheckoutTransferData, ParamsError>)
        ensures
            destination@.len() == 0 <==> r == Err::<CheckoutTransferData, ParamsError>(
                ParamsError::EmptyDestination,
            ),
            destination@.len() > 0 <==> r is Ok,
            r is Ok ==> r->Ok_0.destination@ == destination@ && r->Ok_0.amount is None,
    {
        if destination.as_str().is_empty() {
            Err(ParamsError::EmptyDestination)
        } else {
            Ok(CheckoutTransferData { destination, amount: None })
        }
    }

    pub fn encode_at(&self, prefix: &str, out: &mut Vec<(String, String)>)
        ensures
            form_of(final(out)@) == form_of(old(out)@) + self.form_at(prefix@),
    {
        let ghost g = self.field_groups(prefix@);
        let ghost start = form_of(out@);
        assert(start == start + concat_groups(g.take(0))) by {
            assert(start =~= start + Seq::<(Seq<char>, Seq<char>)>::empty());
        }
        let ghost b = form_of(out@);
        push_single(out, prefix, "destination", self.destination.clone());
        proof { lemma_concat_groups_step(start, g, 0, b, form_of(out@)); }
        let ghost b = form_of(out@);
        push_optional_amount(out, prefix, "amount", self.amount);
        proof {
            lemma_concat_groups_step(start, g, 1, b, form_of(out@));
            assert(g.take(2) =~= g);
        }
    }
}

impl CheckoutPaymentIntentData {
    pub open spec fn field_groups(&self, prefix: Seq<char>) -> Seq<(Seq<char>, FormPairs)> {
        seq![
            ("application_fee_amount"@, optional(prefix, "application_fee_amount"@, amount_of(self.application_fee_amount))),
            ("description"@, optional(prefix, "description"@, text_of(self.description))),
            ("metadata"@, match self.metadata {
                Some(m) => keyed(nest(prefix, "metadata"@), m@),
                None => Seq::empty(),
            }),
            ("on_behalf_of"@, optional(prefix, "on_behalf_of"@, text_of(self.on_behalf_of))),
            ("receipt_email"@, optional(prefix, "receipt_email"@, text_of(self.receipt_email))),
            ("statement_descriptor"@, optional(prefix, "statement_descriptor"@, text_of(self.statement_descriptor))),
            ("statement_descriptor_suffix"@, optional(prefix, "statement_descriptor_suffix"@, text_of(self.statement_descriptor_suffix))),
            ("transfer_data"@, match self.transfer_data {
                Some(t) => t.form_at(nest(prefix, "transfer_data"@)),
                None => Seq::empty(),
            }),
            ("transfer_group"@, optional(prefix, "transfer_group"@, text_of(self.transfer_group))),
        ]
    }

    pub open spec fn form_at(&self, prefix: Seq<char>) -> FormPairs {
        concat_groups(self.field_groups(prefix))
    }

    /// Payment intent data with every field unset.
    pub fn new() -> (r: CheckoutPaymentIntentData)
        ensures
            r.application_fee_amount is None,
            r.description is None,
            r.metadata is None,
            r.on_behalf_of is None,
            r.receipt_email is None,
            r.statement_descriptor is None,
            r.statement_descriptor_suffix is None,
            r.transfer_data is None,
            r.transfer_group is None,
    {
        CheckoutPaymentIntentData {
            application_fee_amount: None,
            description: None,
            metadata: None,
            on_behalf_of: None,
            receipt_email: None,
            statement_descriptor: None,
            statement_descriptor_suffix: None,
            transfer_data: None,
            transfer_group: None,
        }
    }

    pub fn encode_at(&self, prefix: &str, out: &mut Vec<(String, String)>)
        ensures
            form_of(final(out)@) == form_of(old(out)@) + self.form_at(prefix@),
    {
        let ghost g = self.field_groups(prefix@);
        let ghost start = form_of(out@);
        assert(start == start + concat_groups(g.take(0))) by {
            assert(start =~= start + Seq::<(Seq<char>, Seq<char>)>::empty());
        }
        let ghost b = form_of(out@);
        push_optional_amount(out, prefix, "application_fee_amount", self.application_fee_amount);
        proof { lemma_concat_groups_step(start, g, 0, b, form_of(out@)); }
        let ghost b = form_of(out@);
        push_optional_text(out, prefix, "description", &self.description);
        proof { lemma_concat_groups_step(start, g, 1, b, form_of(out@)); }
        let ghost b = form_of(out@);
        match &self.metadata {
            Some(m) => {
                let path = nest_key(prefix, "metadata");
                push_keyed(out, path.as_str(), m.entries());
            },
            None => {
                assert(form_of(out@) =~= b + Seq::<(Seq<char>, Seq<char>)>::empty());
            },
        }
        proof { lemma_concat_groups_step(start, g, 2, b, form_of(out@)); }
        let ghost b = form_of(out@);
        push_optional_text(out, prefix, "on_behalf_of", &self.on_behalf_of);
        proof { lemma_concat_groups_step(start, g, 3, b, form_of(out@)); }
        let ghost b = form_of(out@);
        push_optional_text(out, prefix, "receipt_email", &self.receipt_email);
        proof { lemma_concat_groups_step(start, g, 4, b, form_of(out@)); }
        let ghost b = form_of(out@);
        push_optional_text(out, prefix, "statement_descriptor", &self.statement_descriptor);
        proof { lemma_concat_groups_step(start, g, 5, b, form_of(out@)); }
        let ghost b = form_of(out@);
        push_optional_text(out, prefix, "statement_descriptor_suffix", &self.statement_descriptor_suffix);
        proof { lemma_concat_groups_step(start, g, 6, b, form_of(out@)); }
        let ghost b = form_of(out@);
        match &self.transfer_data {
            Some(t) => {
                let path = nest_key(prefix, "transfer_data");
                t.encode_at(path.as_str(), out);
            },
            None => {
                assert(form_of(out@) =~= b + Seq::<(Seq<char>, Seq<char>)>::empty());
            },
        }
        proof { lemma_concat_groups_step(start, g, 7, b, form_of(out@)); }
        let ghost b = form_of(out@);
        push_optional_text(out, prefix, "transfer_group", &self.transfer_group);
        proof { lemma_concat_groups_step(start, g, 8, b, form_of(out@)); }
        assert(g.take(9) =~= g);
    }
}

/// Writes the entries of the line items below `path`, item `i` below `path[i]`.
fn encode_line_items(path: &str, items: &Vec<CheckoutSessionLineItem>, out: &mut Vec<(String, String)>)
    ensures
        form_of(final(out)@) == form_of(old(out)@) + concat_groups(line_item_groups(path@, items@)),
{
    let ghost g = line_item_groups(path@, items@);
    let ghost start = form_of(out@);
    assert(start == start + concat_groups(g.take(0))) by {
        assert(start =~= start + Seq::<(Seq<char>, Seq<char>)>::empty());
    }
    let mut i: usize = 0;
    while i < items.len()
        invariant
            i <= items@.len(),
            g == line_item_groups(path@, items@),
            form_of(out@) == start + concat_groups(g.take(i as int)),
        decreases items@.len() - i,
    {
        let index = decimal_text(i as u64);
        let item_path = nest_key(path, index.as_str());
        let ghost b = form_of(out@);
        items[i].encode_at(item_path.as_str(), out);
        proof {
            lemma_concat_groups_step(start, g, i as int, b, form_of(out@));
        }
        i = i + 1;
    }
    assert(g.take(items@.len() as int) =~= g);
}

impl CreateCheckoutSession {
    pub open spec fn field_groups(&self, prefix: Seq<char>) -> Seq<(Seq<char>, FormPairs)> {
        seq![
            ("cancel_url"@, single(prefix, "cancel_url"@, self.cancel_url@)),
            ("payment_method_types"@, indexed(nest(prefix, "payment_method_types"@), self.payment_method_types@)),
            ("success_url"@, single(prefix, "success_url"@, self.success_url@)),
            ("client_reference_id"@, optional(prefix, "client_reference_id"@, text_of(self.client_reference_id))),
            ("customer"@, optional(prefix, "customer"@, customer_text(self.customer))),
            ("customer_email"@, optional(prefix, "customer_email"@, text_of(self.customer_email))),
            ("billing_address_collection"@, optional(prefix, "billing_address_collection"@, billing_token(self.billing_address_collection))),
            ("line_items"@, line_items_form(nest(prefix, "line_items"@), self.line_items)),
            ("locale"@, optional(prefix, "locale"@, locale_token(self.locale))),
            ("mode"@, optional(prefix, "mode"@, mode_token(self.mode))),
            ("payment_intent_data"@, match self.payment_intent_data {
                Some(d) => d.form_at(nest(prefix, "payment_intent_data"@)),
                None => Seq::empty(),
            }),
            ("submit_type"@, optional(prefix, "submit_type"@, submit_token(self.submit_type))),
        ]
    }

    pub open spec fn form_at(&self, prefix: Seq<char>) -> FormPairs {
        concat_groups(self.field_groups(prefix))
    }

    /// The request's form: every key at the root.
    pub open spec fn form(&self) -> FormPairs {
        self.form_at(Seq::empty())
    }

    /// A request with the mandatory fields only; an empty list of payment
    /// method types is refused.
    pub fn new(cancel_url: String, success_url: String, payment_method_types: Vec<String>) -> (r: Result<
        CreateCheckoutSession,
        ParamsError,
    >)
        ensures
            payment_method_types@.len() == 0 <==> r == Err::<CreateCheckoutSession, ParamsError>(
                ParamsError::EmptyPaymentMethodTypes,
            ),
            payment_method_types@.len() > 0 <==> r is Ok,
            r is Ok ==> ({
                let p = r->Ok_0;
                &&& p.cancel_url@ == cancel_url@
                &&& p.success_url@ == success_url@
                &&& p.payment_method_types@ == texts_of(payment_method_types@)
                &&& p.client_reference_id is None
                &&& p.customer is None
                &&& p.customer_email is None
                &&& p.billing_address_collection is None
                &&& p.line_items is None
                &&& p.locale is None
                &&& p.mode is None
                &&& p.payment_intent_data is None
                &&& p.submit_type is None
            }),
    {
        match PaymentMethodTypes::new(payment_method_types) {
            Ok(types) => Ok(CreateCheckoutSession {
                cancel_url,
                payment_method_types: types,
                success_url,
                client_reference_id: None,
                customer: None,
                customer_email: None,
                billing_address_collection: None,
                line_items: None,
                locale: None,
                mode: None,
                payment_intent_data: None,
                submit_type: None,
            }),
            Err(e) => Err(e),
        }
    }

    /// Writes the request's entries below `prefix`.
    pub fn encode_at(&self, prefix: &str, out: &mut Vec<(String, String)>)
        ensures
            form_of(final(out)@) == form_of(old(out)@) + self.form_at(prefix@),
    {
        let ghost g = self.field_groups(prefix@);
        let ghost start = form_of(out@);
        assert(start == start + concat_groups(g.take(0))) by {
            assert(start =~= start + Seq::<(Seq<char>, Seq<char>)>::empty());
        }
        let ghost b = form_of(out@);
        push_single(out, prefix, "cancel_url", self.cancel_url.clone());
        proof { lemma_concat_groups_step(start, g, 0, b, form_of(out@)); }
        let ghost b = form_of(out@);
        let path = nest_key(prefix, "payment_method_types");
        push_indexed(out, path.as_str(), self.payment_method_types.as_vec());
        proof { lemma_concat_groups_step(start, g, 1, b, form_of(out@)); }
        let ghost b = form_of(out@);
        push_single(out, prefix, "success_url", self.success_url.clone());
        proof { lemma_concat_groups_step(start, g, 2, b, form_of(out@)); }
        let ghost b = form_of(out@);
        push_optional_text(out, prefix, "client_reference_id", &self.client_reference_id);
        proof { lemma_concat_groups_step(start, g, 3, b, form_of(out@)); }
        let ghost b = form_of(out@);
        push_optional_token(
            out,
            prefix,
            "customer",
            match &self.customer {
                Some(v) => Some(v.as_str()),
                None => None,
            },
        );
        proof { lemma_concat_groups_step(start, g, 4, b, form_of(out@)); }
        let ghost b = form_of(out@);
        push_optional_text(out, prefix, "customer_email", &self.customer_email);
        proof { lemma_concat_groups_step(start, g, 5, b, form_of(out@)); }
        let ghost b = form_of(out@);
        push_optional_token(
            out,
            prefix,
            "billing_address_collection",
            match &self.billing_address_collection {
                Some(v) => Some(v.as_str()),
                None => None,
            },
        );
        proof { lemma_concat_groups_step(start, g, 6, b, form_of(out@)); }
        let ghost b = form_of(out@);
        match &self.line_items {
            Some(items) => {
                let path = nest_key(prefix, "line_items");
                encode_line_items(path.as_str(), items, out);
            },
            None => {
                assert(form_of(out@) =~= b + Seq::<(Seq<char>, Seq<char>)>::empty());
            },
        }
        proof { lemma_concat_groups_step(start, g, 7, b, form_of(out@)); }
        let ghost b = form_of(out@);
        push_optional_token(
            out,
            prefix,
            "locale",
            match &self.locale {
                Some(v) => Some(v.as_str()),
                None => None,
            },
        );
        proof { lemma_concat_groups_step(start, g, 8, b, form_of(out@)); }
        let ghost b = form_of(out@);
        push_optional_token(
            out,
            prefix,
            "mode",
            match &self.mode {
                Some(v) => Some(v.as_str()),
                None => None,
            },
        );
        proof { lemma_concat_groups_step(start, g, 9, b, form_of(out@)); }
        let ghost b = form_of(out@);
        match &self.payment_intent_data {
            Some(d) => {
                let path = nest_key(prefix, "payment_intent_data");
                d.encode_at(path.as_str(), out);
            },
            None => {
                assert(form_of(out@) =~= b + Seq::<(Seq<char>, Seq<char>)>::empty());
            },
        }
        proof { lemma_concat_groups_step(start, g, 10, b, form_of(out@)); }
        let ghost b = form_of(out@);
        push_optional_token(
            out,
            prefix,
            "submit_type",
            match &self.submit_type {
                Some(v) => Some(v.as_str()),
                None => None,
            },
        );
        proof { lemma_concat_groups_step(start, g, 11, b, form_of(out@)); }
        assert(g.take(12) =~= g);
    }

    /// The request's form, in field order.
    pub fn encode(&self) -> (r: Vec<(String, String)>)
        ensures
            form_of(r@) == self.form(),
    {
        let mut out: Vec<(String, String)> = Vec::new();
        self.encode_at("", &mut out);
        proof {
            reveal_strlit("");
        }
        assert(form_of(out@) =~= self.form());
        out
    }
}

impl CheckoutSession {
    /// The request that creates a checkout session: the request's form,
    /// posted to the sessions path. The caller's transport sends it and
    /// decodes the session that comes back.
    pub fn create(params: &CreateCheckoutSession) -> (r: FormRequest)
        ensures
            r.path@ == "/checkout/sessions"@,
            form_of(r.body@) == params.form(),
    {
        FormRequest { path: String::from_str("/checkout/sessions"), body: params.encode() }
    }
}

} // verus!
