use stripe::checkout_session::{
    CheckoutPaymentIntentData, CheckoutSession, CheckoutSessionLineItem, CheckoutTransferData,
    CreateCheckoutSession,
};
use stripe::params::{
    BillingAddressCollection, CheckoutSessionLocale, CheckoutSessionMode, CheckoutSessionSubmitType,
    Currency, CustomerId, Metadata, ParamsError, PaymentMethodTypes,
};
use stripe::wire::{decimal_text, nest_key, signed_decimal_text};

fn pair(k: &str, v: &str) -> (String, String) {
    (k.to_string(), v.to_string())
}

fn base() -> CreateCheckoutSession {
    CreateCheckoutSession::new(
        "https://example.com/cancel".to_string(),
        "https://example.com/success".to_string(),
        vec!["card".to_string()],
    )
    .unwrap()
}

fn item(amount: i64, name: &str, quantity: u64) -> CheckoutSessionLineItem {
    CheckoutSessionLineItem::new(amount, Currency::Usd, name.to_string(), quantity).unwrap()
}

fn keys(form: &[(String, String)]) -> Vec<String> {
    form.iter().map(|p| p.0.clone()).collect()
}

#[test]
fn widget_session_encodes_to_expected_form() {
    let mut p = base();
    p.line_items = Some(vec![item(500, "Widget", 2)]);
    let form = p.encode();
    assert_eq!(
        form,
        vec![
            pair("cancel_url", "https://example.com/cancel"),
            pair("payment_method_types[0]", "card"),
            pair("success_url", "https://example.com/success"),
            pair("line_items[0][amount]", "500"),
            pair("line_items[0][currency]", "usd"),
            pair("line_items[0][name]", "Widget"),
            pair("line_items[0][quantity]", "2"),
        ]
    );
    assert!(!keys(&form).iter().any(|k| k == "customer"));
}

#[test]
fn empty_payment_method_types_is_refused() {
    let r = CreateCheckoutSession::new("a".to_string(), "b".to_string(), vec![]);
    assert!(matches!(r, Err(ParamsError::EmptyPaymentMethodTypes)));
    assert!(matches!(PaymentMethodTypes::new(vec![]), Err(ParamsError::EmptyPaymentMethodTypes)));
    let t = PaymentMethodTypes::new(vec!["card".to_string(), "ideal".to_string()]).unwrap();
    assert_eq!(t.len(), 2);
    assert_eq!(t.as_vec(), &vec!["card".to_string(), "ideal".to_string()]);
}

#[test]
fn unset_optional_fields_leave_no_key() {
    let form = base().encode();
    assert_eq!(
        keys(&form),
        vec!["cancel_url", "payment_method_types[0]", "success_url"]
    );
    let mut d = CheckoutPaymentIntentData::new();
    d.transfer_data = Some(CheckoutTransferData::new("acct_1".to_string()).unwrap());
    let mut out = Vec::new();
    d.encode_at("payment_intent_data", &mut out);
    assert_eq!(out, vec![pair("payment_intent_data[transfer_data][destination]", "acct_1")]);
}

#[test]
fn set_optional_fields_give_one_entry_each() {
    let mut p = base();
    p.client_reference_id = Some("cart_9".to_string());
    p.customer = Some(CustomerId::new("cus_123".to_string()));
    p.customer_email = Some("a@b.c".to_string());
    p.billing_address_collection = Some(BillingAddressCollection::Required);
    p.locale = Some(CheckoutSessionLocale::Fr);
    p.mode = Some(CheckoutSessionMode::Payment);
    p.submit_type = Some(CheckoutSessionSubmitType::Donate);
    let form = p.encode();
    assert_eq!(
        form,
        vec![
            pair("cancel_url", "https://example.com/cancel"),
            pair("payment_method_types[0]", "card"),
            pair("success_url", "https://example.com/success"),
            pair("client_reference_id", "cart_9"),
            pair("customer", "cus_123"),
            pair("customer_email", "a@b.c"),
            pair("billing_address_collection", "required"),
            pair("locale", "fr"),
            pair("mode", "payment"),
            pair("submit_type", "donate"),
        ]
    );
}

#[test]
fn nested_objects_are_keyed_by_bracket_paths() {
    let mut p = base();
    let mut d = CheckoutPaymentIntentData::new();
    d.application_fee_amount = Some(123);
    d.description = Some("order 7".to_string());
    let mut m = Metadata::new();
    m.insert("order".to_string(), "7".to_string());
    m.insert("team".to_string(), "blue".to_string());
    d.metadata = Some(m);
    let mut t = CheckoutTransferData::new("acct_9".to_string()).unwrap();
    t.amount = Some(100);
    d.transfer_data = Some(t);
    d.transfer_group = Some("g1".to_string());
    p.payment_intent_data = Some(d);
    let form = p.encode();
    assert_eq!(
        form[3..].to_vec(),
        vec![
            pair("payment_intent_data[application_fee_amount]", "123"),
            pair("payment_intent_data[description]", "order 7"),
            pair("payment_intent_data[metadata][order]", "7"),
            pair("payment_intent_data[metadata][team]", "blue"),
            pair("payment_intent_data[transfer_data][destination]", "acct_9"),
            pair("payment_intent_data[transfer_data][amount]", "100"),
            pair("payment_intent_data[transfer_group]", "g1"),
        ]
    );
}

#[test]
fn line_items_are_indexed_in_input_order() {
    let mut p = base();
    p.line_items = Some(vec![item(1, "a", 1), item(2, "b", 3), item(3, "c", 5)]);
    let form = p.encode();
    let names: Vec<(String, String)> =
        form.iter().filter(|e| e.0.ends_with("[name]")).cloned().collect();
    assert_eq!(
        names,
        vec![
            pair("line_items[0][name]", "a"),
            pair("line_items[1][name]", "b"),
            pair("line_items[2][name]", "c"),
        ]
    );
    assert_eq!(form.iter().filter(|e| e.0.starts_with("line_items[")).count(), 12);

    let mut q = base();
    q.line_items = Some(vec![item(3, "c", 5), item(1, "a", 1), item(2, "b", 3)]);
    let form = q.encode();
    assert!(form.contains(&pair("line_items[0][name]", "c")));
    assert!(form.contains(&pair("line_items[0][quantity]", "5")));
    assert!(form.contains(&pair("line_items[1][name]", "a")));
    assert!(form.contains(&pair("line_items[2][amount]", "2")));
}

#[test]
fn line_item_optional_fields() {
    let mut i = item(250, "Mug", 1);
    i.description = Some("blue".to_string());
    i.images = Some(vec!["https://img/1".to_string(), "https://img/2".to_string()]);
    let mut out = Vec::new();
    i.encode_at("line_items[4]", &mut out);
    assert_eq!(
        out,
        vec![
            pair("line_items[4][amount]", "250"),
            pair("line_items[4][currency]", "usd"),
            pair("line_items[4][name]", "Mug"),
            pair("line_items[4][quantity]", "1"),
            pair("line_items[4][description]", "blue"),
            pair("line_items[4][images][0]", "https://img/1"),
            pair("line_items[4][images][1]", "https://img/2"),
        ]
    );
}

#[test]
fn encoding_twice_gives_identical_forms() {
    let mut p = base();
    p.line_items = Some(vec![item(500, "Widget", 2), item(7, "Pin", 10)]);
    p.mode = Some(CheckoutSessionMode::Setup);
    assert_eq!(p.encode(), p.encode());
}

#[test]
fn line_item_and_transfer_errors() {
    assert!(matches!(
        CheckoutSessionLineItem::new(-1, Currency::Eur, "x".to_string(), 1),
        Err(ParamsError::NegativeAmount)
    ));
    assert!(matches!(
        CheckoutSessionLineItem::new(0, Currency::Eur, "x".to_string(), 0),
        Err(ParamsError::ZeroQuantity)
    ));
    assert!(matches!(
        CheckoutSessionLineItem::new(-5, Currency::Eur, "x".to_string(), 0),
        Err(ParamsError::NegativeAmount)
    ));
    assert!(CheckoutSessionLineItem::new(0, Currency::Eur, "x".to_string(), 1).is_ok());
    assert!(matches!(CheckoutTransferData::new(String::new()), Err(ParamsError::EmptyDestination)));
}

#[test]
fn metadata_replaces_value_of_existing_key() {
    let mut m = Metadata::new();
    assert_eq!(m.len(), 0);
    m.insert("a".to_string(), "1".to_string());
    m.insert("b".to_string(), "2".to_string());
    m.insert("a".to_string(), "3".to_string());
    assert_eq!(m.len(), 2);
    assert_eq!(m.entries(), &vec![pair("a", "3"), pair("b", "2")]);
}

#[test]
fn create_posts_form_to_sessions_path() {
    let mut p = base();
    p.customer = Some(CustomerId::new("cus_1".to_string()));
    let r = CheckoutSession::create(&p);
    assert_eq!(r.path, "/checkout/sessions");
    assert_eq!(r.body, p.encode());
    assert_eq!(r.body[3], pair("customer", "cus_1"));
}

#[test]
fn decimal_and_key_text() {
    assert_eq!(decimal_text(0), "0");
    assert_eq!(decimal_text(1907), "1907");
    assert_eq!(decimal_text(u64::MAX), "18446744073709551615");
    assert_eq!(signed_decimal_text(-42), "-42");
    assert_eq!(signed_decimal_text(i64::MIN), "-9223372036854775808");
    assert_eq!(signed_decimal_text(i64::MAX), "9223372036854775807");
    assert_eq!(nest_key("", "mode"), "mode");
    assert_eq!(nest_key("a[b]", "c"), "a[b][c]");
}

#[test]
fn enum_tokens() {
    assert_eq!(Currency::Usd.as_str(), "usd");
    assert_eq!(Currency::Jpy.as_str(), "jpy");
    assert_eq!(CheckoutSessionLocale::Auto.as_str(), "auto");
    assert_eq!(CheckoutSessionMode::Subscription.as_str(), "subscription");
    assert_eq!(CheckoutSessionSubmitType::Book.as_str(), "book");
    assert_eq!(BillingAddressCollection::Auto.as_str(), "auto");
    assert_eq!(CustomerId::new("cus_x".to_string()).as_str(), "cus_x");
}

#[test]
fn empty_optional_lists_leave_no_key() {
    let mut p = base();
    p.line_items = Some(vec![]);
    assert_eq!(p.encode(), base().encode());
    let mut i = item(10, "Cap", 1);
    i.images = Some(vec![]);
    let mut out = Vec::new();
    i.encode_at("x", &mut out);
    assert_eq!(out.len(), 4);
    assert!(!keys(&out).iter().any(|k| k.contains("images")));
}
