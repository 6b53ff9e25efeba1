//! What holds of every encoded request: where each field's entries stand,
//! that unset fields leave no key, and that encoding is a function of the
//! request alone.
use vstd::prelude::*;

use crate::checkout_session::{
    billing_token, customer_text, line_item_groups, line_items_form, locale_token, mode_token,
    submit_token, CheckoutPaymentIntentData, CheckoutSessionLineItem, CheckoutTransferData,
    CreateCheckoutSession,
};
use crate::wire::{
    all_under, amount_of, concat_groups, decimal, entries_under, form_of, groups_well_laid,
    indexed, is_plain, keyed, lemma_decimal_injective, lemma_decimal_shape, lemma_field_group_selected,
    lemma_groups_under_prefix, lemma_indexed_under, lemma_keyed_under, lemma_optional_under,
    lemma_single_under, nest, optional, signed_decimal, single, text_of, texts_of,
};

verus! {

proof fn lemma_names_plain()
    ensures
        is_plain("amount"@) && "amount"@.len() > 0,
        is_plain("currency"@) && "currency"@.len() > 0,
        is_plain("name"@) && "name"@.len() > 0,
        is_plain("quantity"@) && "quantity"@.len() > 0,
        is_plain("description"@) && "description"@.len() > 0,
        is_plain("images"@) && "images"@.len() > 0,
        is_plain("destination"@) && "destination"@.len() > 0,
        is_plain("application_fee_amount"@) && "application_fee_amount"@.len() > 0,
        is_plain("metadata"@) && "metadata"@.len() > 0,
        is_plain("on_behalf_of"@) && "on_behalf_of"@.len() > 0,
        is_plain("receipt_email"@) && "receipt_email"@.len() > 0,
        is_plain("statement_descriptor"@) && "statement_descriptor"@.len() > 0,
        is_plain("statement_descriptor_suffix"@) && "statement_descriptor_suffix"@.len() > 0,
        is_plain("transfer_data"@) && "transfer_data"@.len() > 0,
        is_plain("transfer_group"@) && "transfer_group"@.len() > 0,
        is_plain("cancel_url"@) && "cancel_url"@.len() > 0,
        is_plain("payment_method_types"@) && "payment_method_types"@.len() > 0,
        is_plain("success_url"@) && "success_url"@.len() > 0,
        is_plain("client_reference_id"@) && "client_reference_id"@.len() > 0,
        is_plain("customer"@) && "customer"@.len() > 0,
        is_plain("customer_email"@) && "customer_email"@.len() > 0,
        is_plain("billing_address_collection"@) && "billing_address_collection"@.len() > 0,
        is_plain("line_items"@) && "line_items"@.len() > 0,
        is_plain("locale"@) && "locale"@.len() > 0,
        is_plain("mode"@) && "mode"@.len() > 0,
        is_plain("payment_intent_data"@) && "payment_intent_data"@.len() > 0,
        is_plain("submit_type"@) && "submit_type"@.len() > 0,
{
    reveal_strlit("amount");
    reveal_strlit("currency");
    reveal_strlit("name");
    reveal_strlit("quantity");
    reveal_strlit("description");
    reveal_strlit("images");
    reveal_strlit("destination");
    reveal_strlit("application_fee_amount");
    reveal_strlit("metadata");
    reveal_strlit("on_behalf_of");
    reveal_strlit("receipt_email");
    reveal_strlit("statement_descriptor");
    reveal_strlit("statement_descriptor_suffix");
    reveal_strlit("transfer_data");
    reveal_strlit("transfer_group");
    reveal_strlit("cancel_url");
    reveal_strlit("payment_method_types");
    reveal_strlit("success_url");
    reveal_strlit("client_reference_id");
    reveal_strlit("customer");
    reveal_strlit("customer_email");
    reveal_strlit("billing_address_collection");
    reveal_strlit("line_items");
    reveal_strlit("locale");
    reveal_strlit("mode");
    reveal_strlit("payment_intent_data");
    reveal_strlit("submit_type");
}

proof fn lemma_line_item_laid(item: CheckoutSessionLineItem, prefix: Seq<char>)
    ensures
        groups_well_laid(prefix, item.field_groups(prefix)),
{
    lemma_names_plain();
    reveal_strlit("amount");
    reveal_strlit("currency");
    reveal_strlit("name");
    reveal_strlit("quantity");
    reveal_strlit("description");
    reveal_strlit("images");
    let g = item.field_groups(prefix);
    lemma_single_under(prefix, "amount"@, signed_decimal(item.amount as int));
    lemma_single_under(prefix, "currency"@, item.currency.token());
    lemma_single_under(prefix, "name"@, item.name@);
    lemma_single_under(prefix, "quantity"@, decimal(item.quantity as nat));
    lemma_optional_under(prefix, "description"@, text_of(item.description));
    if let Some(v) = item.images {
        lemma_indexed_under(nest(prefix, "images"@), texts_of(v@));
    }
    assert forall|i: int| 0 <= i < g.len() implies is_plain(#[trigger] g[i].0) && g[i].0.len() > 0 by {
        assert(i == 0 || i == 1 || i == 2 || i == 3 || i == 4 || i == 5);
    }
    assert forall|i: int, j: int| 0 <= i < g.len() && 0 <= j < g.len() && i != j implies #[trigger] g[i].0
        != #[trigger] g[j].0 by {
        assert("amount"@[0] != "images"@[0]);
        assert("currency"@[0] != "quantity"@[0]);
        assert(i == 0 || i == 1 || i == 2 || i == 3 || i == 4 || i == 5);
        assert(j == 0 || j == 1 || j == 2 || j == 3 || j == 4 || j == 5);
    }
    assert forall|i: int| 0 <= i < g.len() implies all_under(#[trigger] g[i].1, nest(prefix, g[i].0)) by {
        assert(i == 0 || i == 1 || i == 2 || i == 3 || i == 4 || i == 5);
    }
}

proof fn lemma_transfer_laid(t: CheckoutTransferData, prefix: Seq<char>)
    ensures
        groups_well_laid(prefix, t.field_groups(prefix)),
{
    lemma_names_plain();
    reveal_strlit("destination");
    reveal_strlit("amount");
    lemma_single_under(prefix, "destination"@, t.destination@);
    lemma_optional_under(prefix, "amount"@, amount_of(t.amount));
}

proof fn lemma_payment_intent_laid(d: CheckoutPaymentIntentData, prefix: Seq<char>)
    ensures
        groups_well_laid(prefix, d.field_groups(prefix)),
{
    lemma_names_plain();
    reveal_strlit("application_fee_amount");
    reveal_strlit("description");
    reveal_strlit("metadata");
    reveal_strlit("on_behalf_of");
    reveal_strlit("receipt_email");
    reveal_strlit("statement_descriptor");
    reveal_strlit("statement_descriptor_suffix");
    reveal_strlit("transfer_data");
    reveal_strlit("transfer_group");
    lemma_optional_under(prefix, "application_fee_amount"@, amount_of(d.application_fee_amount));
    lemma_optional_under(prefix, "description"@, text_of(d.description));
    if let Some(m) = d.metadata {
        lemma_keyed_under(nest(prefix, "metadata"@), m@);
    }
    lemma_optional_under(prefix, "on_behalf_of"@, text_of(d.on_behalf_of));
    lemma_optional_under(prefix, "receipt_email"@, text_of(d.receipt_email));
    lemma_optional_under(prefix, "statement_descriptor"@, text_of(d.statement_descriptor));
    lemma_optional_under(
        prefix,
        "statement_descriptor_suffix"@,
        text_of(d.statement_descriptor_suffix),
    );
    if let Some(t) = d.transfer_data {
        let p = nest(prefix, "transfer_data"@);
        lemma_transfer_laid(t, p);
        lemma_groups_under_prefix(p, t.field_groups(p));
    }
    lemma_optional_under(prefix, "transfer_group"@, text_of(d.transfer_group));
    let g = d.field_groups(prefix);
    assert forall|i: int| 0 <= i < g.len() implies is_plain(#[trigger] g[i].0) && g[i].0.len() > 0 by {
        assert(i == 0 || i == 1 || i == 2 || i == 3 || i == 4 || i == 5 || i == 6 || i == 7 || i == 8);
    }
    assert forall|i: int, j: int| 0 <= i < g.len() && 0 <= j < g.len() && i != j implies #[trigger] g[i].0
        != #[trigger] g[j].0 by {
        assert("receipt_email"@[0] != "transfer_data"@[0]);
        assert(i == 0 || i == 1 || i == 2 || i == 3 || i == 4 || i == 5 || i == 6 || i == 7 || i == 8);
        assert(j == 0 || j == 1 || j == 2 || j == 3 || j == 4 || j == 5 || j == 6 || j == 7 || j == 8);
    }
    assert forall|i: int| 0 <= i < g.len() implies all_under(#[trigger] g[i].1, nest(prefix, g[i].0)) by {
        assert(i == 0 || i == 1 || i == 2 || i == 3 || i == 4 || i == 5 || i == 6 || i == 7 || i == 8);
    }
}

proof fn lemma_line_item_groups_laid(path: Seq<char>, items: Seq<CheckoutSessionLineItem>)
    requires
        path.len() > 0,
    ensures
        groups_well_laid(path, line_item_groups(path, items)),
{
    let g = line_item_groups(path, items);
    assert forall|i: int| 0 <= i < g.len() implies is_plain(#[trigger] g[i].0) && g[i].0.len() > 0 by {
        lemma_decimal_shape(i as nat);
    }
    assert forall|i: int, j: int| 0 <= i < g.len() && 0 <= j < g.len() && i != j implies #[trigger] g[i].0
        != #[trigger] g[j].0 by {
        lemma_decimal_injective(i as nat, j as nat);
    }
    assert forall|i: int| 0 <= i < g.len() implies all_under(#[trigger] g[i].1, nest(path, g[i].0)) by {
        let p = nest(path, decimal(i as nat));
        lemma_line_item_laid(items[i], p);
        lemma_groups_under_prefix(p, items[i].field_groups(p));
    }
}

proof fn lemma_session_laid(p: CreateCheckoutSession, prefix: Seq<char>)
    ensures
        groups_well_laid(prefix, p.field_groups(prefix)),
{
    lemma_names_plain();
    reveal_strlit("cancel_url");
    reveal_strlit("payment_method_types");
    reveal_strlit("success_url");
    reveal_strlit("client_reference_id");
    reveal_strlit("customer");
    reveal_strlit("customer_email");
    reveal_strlit("billing_address_collection");
    reveal_strlit("line_items");
    reveal_strlit("locale");
    reveal_strlit("mode");
    reveal_strlit("payment_intent_data");
    reveal_strlit("submit_type");
    lemma_single_under(prefix, "cancel_url"@, p.cancel_url@);
    lemma_indexed_under(nest(prefix, "payment_method_types"@), p.payment_method_types@);
    lemma_single_under(prefix, "success_url"@, p.success_url@);
    lemma_optional_under(prefix, "client_reference_id"@, text_of(p.client_reference_id));
    lemma_optional_under(prefix, "customer"@, customer_text(p.customer));
    lemma_optional_under(prefix, "customer_email"@, text_of(p.customer_email));
    lemma_optional_under(
        prefix,
        "billing_address_collection"@,
        billing_token(p.billing_address_collection),
    );
    if let Some(items) = p.line_items {
        let path = nest(prefix, "line_items"@);
        lemma_line_item_groups_laid(path, items@);
        lemma_groups_under_prefix(path, line_item_groups(path, items@));
    }
    lemma_optional_under(prefix, "locale"@, locale_token(p.locale));
    lemma_optional_under(prefix, "mode"@, mode_token(p.mode));
    if let Some(d) = p.payment_intent_data {
        let path = nest(prefix, "payment_intent_data"@);
        lemma_payment_intent_laid(d, path);
        lemma_groups_under_prefix(path, d.field_groups(path));
    }
    lemma_optional_under(prefix, "submit_type"@, submit_token(p.submit_type));
    let g = p.field_groups(prefix);
    assert forall|i: int| 0 <= i < g.len() implies is_plain(#[trigger] g[i].0) && g[i].0.len() > 0 by {
        assert(i == 0 || i == 1 || i == 2 || i == 3 || i == 4 || i == 5 || i == 6 || i == 7 || i == 8 || i == 9 || i == 10 || i == 11);
    }
    assert forall|i: int, j: int| 0 <= i < g.len() && 0 <= j < g.len() && i != j implies #[trigger] g[i].0
        != #[trigger] g[j].0 by {
        assert("cancel_url"@[0] != "line_items"@[0]);
        assert("success_url"@[2] != "submit_type"@[2]);
        assert("client_reference_id"@[0] != "payment_intent_data"@[0]);
        assert(i == 0 || i == 1 || i == 2 || i == 3 || i == 4 || i == 5 || i == 6 || i == 7 || i == 8 || i == 9 || i == 10 || i == 11);
        assert(j == 0 || j == 1 || j == 2 || j == 3 || j == 4 || j == 5 || j == 6 || j == 7 || j == 8 || j == 9 || j == 10 || j == 11);
    }
    assert forall|i: int| 0 <= i < g.len() implies all_under(#[trigger] g[i].1, nest(prefix, g[i].0)) by {
        assert(i == 0 || i == 1 || i == 2 || i == 3 || i == 4 || i == 5 || i == 6 || i == 7 || i == 8 || i == 9 || i == 10 || i == 11);
    }
}

/// At the root of a request's form, the entries below each field's name are
/// that field's own: one entry for a mandatory field; for an optional one,
/// one entry with its wire value when it is set and none when it is unset;
/// the indexed entries of a list; the nested entries of a sub-object, all
/// below the field's name.
pub proof fn lemma_session_field_entries(p: CreateCheckoutSession)
    ensures
        entries_under(p.form(), "cancel_url"@) == single(Seq::empty(), "cancel_url"@, p.cancel_url@),
        entries_under(p.form(), "payment_method_types"@) == indexed(
            "payment_method_types"@,
            p.payment_method_types@,
        ),
        entries_under(p.form(), "success_url"@) == single(Seq::empty(), "success_url"@, p.success_url@),
        entries_under(p.form(), "client_reference_id"@) == optional(
            Seq::empty(),
            "client_reference_id"@,
            text_of(p.client_reference_id),
        ),
        entries_under(p.form(), "customer"@) == optional(Seq::empty(), "customer"@, customer_text(p.customer)),
        entries_under(p.form(), "customer_email"@) == optional(
            Seq::empty(),
            "customer_email"@,
            text_of(p.customer_email),
        ),
        entries_under(p.form(), "billing_address_collection"@) == optional(
            Seq::empty(),
            "billing_address_collection"@,
            billing_token(p.billing_address_collection),
        ),
        entries_under(p.form(), "line_items"@) == line_items_form("line_items"@, p.line_items),
        entries_under(p.form(), "locale"@) == optional(Seq::empty(), "locale"@, locale_token(p.locale)),
        entries_under(p.form(), "mode"@) == optional(Seq::empty(), "mode"@, mode_token(p.mode)),
        entries_under(p.form(), "payment_intent_data"@) == match p.payment_intent_data {
            Some(d) => d.form_at("payment_intent_data"@),
            None => Seq::empty(),
        },
        entries_under(p.form(), "submit_type"@) == optional(
            Seq::empty(),
            "submit_type"@,
            submit_token(p.submit_type),
        ),
{
    let e = Seq::<char>::empty();
    let g = p.field_groups(e);
    lemma_session_laid(p, e);
    lemma_field_group_selected(e, g, 0);
    lemma_field_group_selected(e, g, 1);
    lemma_field_group_selected(e, g, 2);
    lemma_field_group_selected(e, g, 3);
    lemma_field_group_selected(e, g, 4);
    lemma_field_group_selected(e, g, 5);
    lemma_field_group_selected(e, g, 6);
    lemma_field_group_selected(e, g, 7);
    lemma_field_group_selected(e, g, 8);
    lemma_field_group_selected(e, g, 9);
    lemma_field_group_selected(e, g, 10);
    lemma_field_group_selected(e, g, 11);
}

/// Below a non-empty prefix, every key of the payment intent data's form lies
/// below the prefix, and the entries below each field's key are that
/// field's own: none for an unset field.
pub proof fn lemma_payment_intent_field_entries(d: CheckoutPaymentIntentData, prefix: Seq<char>)
    requires
        prefix.len() > 0,
    ensures
        all_under(d.form_at(prefix), prefix),
        entries_under(d.form_at(prefix), nest(prefix, "application_fee_amount"@)) == optional(
            prefix,
            "application_fee_amount"@,
            amount_of(d.application_fee_amount),
        ),
        entries_under(d.form_at(prefix), nest(prefix, "description"@)) == optional(
            prefix,
            "description"@,
            text_of(d.description),
        ),
        entries_under(d.form_at(prefix), nest(prefix, "metadata"@)) == match d.metadata {
            Some(m) => keyed(nest(prefix, "metadata"@), m@),
            None => Seq::empty(),
        },
        entries_under(d.form_at(prefix), nest(prefix, "on_behalf_of"@)) == optional(
            prefix,
            "on_behalf_of"@,
            text_of(d.on_behalf_of),
        ),
        entries_under(d.form_at(prefix), nest(prefix, "receipt_email"@)) == optional(
            prefix,
            "receipt_email"@,
            text_of(d.receipt_email),
        ),
        entries_under(d.form_at(prefix), nest(prefix, "statement_descriptor"@)) == optional(
            prefix,
            "statement_descriptor"@,
            text_of(d.statement_descriptor),
        ),
        entries_under(d.form_at(prefix), nest(prefix, "statement_descriptor_suffix"@)) == optional(
            prefix,
            "statement_descriptor_suffix"@,
            text_of(d.statement_descriptor_suffix),
        ),
        entries_under(d.form_at(prefix), nest(prefix, "transfer_data"@)) == match d.transfer_data {
            Some(t) => t.form_at(nest(prefix, "transfer_data"@)),
            None => Seq::empty(),
        },
        entries_under(d.form_at(prefix), nest(prefix, "transfer_group"@)) == optional(
            prefix,
            "transfer_group"@,
            text_of(d.transfer_group),
        ),
{
    let g = d.field_groups(prefix);
    lemma_payment_intent_laid(d, prefix);
    lemma_groups_under_prefix(prefix, g);
    lemma_field_group_selected(prefix, g, 0);
    lemma_field_group_selected(prefix, g, 1);
    lemma_field_group_selected(prefix, g, 2);
    lemma_field_group_selected(prefix, g, 3);
    lemma_field_group_selected(prefix, g, 4);
    lemma_field_group_selected(prefix, g, 5);
    lemma_field_group_selected(prefix, g, 6);
    lemma_field_group_selected(prefix, g, 7);
    lemma_field_group_selected(prefix, g, 8);
}

/// Below a non-empty prefix, every key of the transfer data's form lies below
/// the prefix; the destination has one entry, the amount one when set and
/// none when unset.
pub proof fn lemma_transfer_field_entries(t: CheckoutTransferData, prefix: Seq<char>)
    requires
        prefix.len() > 0,
    ensures
        all_under(t.form_at(prefix), prefix),
        entries_under(t.form_at(prefix), nest(prefix, "destination"@)) == single(
            prefix,
            "destination"@,
            t.destination@,
        ),
        entries_under(t.form_at(prefix), nest(prefix, "amount"@)) == optional(
            prefix,
            "amount"@,
            amount_of(t.amount),
        ),
{
    let g = t.field_groups(prefix);
    lemma_transfer_laid(t, prefix);
    lemma_groups_under_prefix(prefix, g);
    lemma_field_group_selected(prefix, g, 0);
    lemma_field_group_selected(prefix, g, 1);
}

/// Below a non-empty prefix, every key of a line item's form lies below the
/// prefix, and the entries below each field's key are that field's own.
pub proof fn lemma_line_item_field_entries(item: CheckoutSessionLineItem, prefix: Seq<char>)
    requires
        prefix.len() > 0,
    ensures
        all_under(item.form_at(prefix), prefix),
        entries_under(item.form_at(prefix), nest(prefix, "amount"@)) == single(
            prefix,
            "amount"@,
            signed_decimal(item.amount as int),
        ),
        entries_under(item.form_at(prefix), nest(prefix, "currency"@)) == single(
            prefix,
            "currency"@,
            item.currency.token(),
        ),
        entries_under(item.form_at(prefix), nest(prefix, "name"@)) == single(prefix, "name"@, item.name@),
        entries_under(item.form_at(prefix), nest(prefix, "quantity"@)) == single(
            prefix,
            "quantity"@,
            decimal(item.quantity as nat),
        ),
        entries_under(item.form_at(prefix), nest(prefix, "description"@)) == optional(
            prefix,
            "description"@,
            text_of(item.description),
        ),
        entries_under(item.form_at(prefix), nest(prefix, "images"@)) == match item.images {
            Some(v) => indexed(nest(prefix, "images"@), texts_of(v@)),
            None => Seq::empty(),
        },
{
    let g = item.field_groups(prefix);
    lemma_line_item_laid(item, prefix);
    lemma_groups_under_prefix(prefix, g);
    lemma_field_group_selected(prefix, g, 0);
    lemma_field_group_selected(prefix, g, 1);
    lemma_field_group_selected(prefix, g, 2);
    lemma_field_group_selected(prefix, g, 3);
    lemma_field_group_selected(prefix, g, 4);
    lemma_field_group_selected(prefix, g, 5);
}

/// Line items below a non-empty path make one group per item, in input
/// order: the entries below `path[i]` are exactly item `i`'s form there, and
/// every key lies below the path.
pub proof fn lemma_line_items_indexed(path: Seq<char>, items: Seq<CheckoutSessionLineItem>)
    requires
        path.len() > 0,
    ensures
        line_item_groups(path, items).len() == items.len(),
        all_under(concat_groups(line_item_groups(path, items)), path),
        forall|i: int|
            0 <= i < items.len() ==> entries_under(
                concat_groups(line_item_groups(path, items)),
                nest(path, decimal(i as nat)),
            ) == #[trigger] items[i].form_at(nest(path, decimal(i as nat))),
{
    let g = line_item_groups(path, items);
    lemma_line_item_groups_laid(path, items);
    lemma_groups_under_prefix(path, g);
    assert forall|i: int| 0 <= i < items.len() implies entries_under(
        concat_groups(g),
        nest(path, decimal(i as nat)),
    ) == #[trigger] items[i].form_at(nest(path, decimal(i as nat))) by {
        lemma_field_group_selected(path, g, i);
    }
}

/// Two encodings of one request hold the same pairs, in the same order.
pub proof fn lemma_encoding_deterministic(
    p: CreateCheckoutSession,
    first: Seq<(String, String)>,
    second: Seq<(String, String)>,
)
    requires
        form_of(first) == p.form(),
        form_of(second) == p.form(),
    ensures
        form_of(first) == form_of(second),
        first.len() == second.len(),
        forall|i: int| 0 <= i < first.len() ==> #[trigger] first[i].0@ == second[i].0@ && first[i].1@ == second[i].1@,
{
    assert forall|i: int| 0 <= i < first.len() implies #[trigger] first[i].0@ == second[i].0@ && first[i].1@
        == second[i].1@ by {
        assert(form_of(first)[i] == form_of(second)[i]);
    }
}

/// Reordering the line items reorders their index groups the same way: when
/// item `i` of `b` is item `perm(i)` of `a`, the entries below `path[i]` in
/// the form of `b` are item `perm(i)` of `a` encoded there.
pub proof fn lemma_line_items_reordered(
    path: Seq<char>,
    a: Seq<CheckoutSessionLineItem>,
    b: Seq<CheckoutSessionLineItem>,
    perm: spec_fn(int) -> int,
)
    requires
        path.len() > 0,
        a.len() == b.len(),
        forall|i: int| 0 <= i < b.len() ==> 0 <= #[trigger] perm(i) < a.len() && b[i] == a[perm(i)],
    ensures
        forall|i: int|
            0 <= i < b.len() ==> entries_under(
                concat_groups(line_item_groups(path, b)),
                nest(path, decimal(i as nat)),
            ) == a[#[trigger] perm(i)].form_at(nest(path, decimal(i as nat))),
{
    lemma_line_items_indexed(path, b);
    assert forall|i: int| 0 <= i < b.len() implies entries_under(
        concat_groups(line_item_groups(path, b)),
        nest(path, decimal(i as nat)),
    ) == a[#[trigger] perm(i)].form_at(nest(path, decimal(i as nat))) by {
        assert(b[i] == a[perm(i)]);
    }
}

} // verus!
