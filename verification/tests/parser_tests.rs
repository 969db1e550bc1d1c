use infi_erp::numbers::{parse_i32, parse_i64, u64_to_string};
use infi_erp::orders::ClientOrder;
use infi_erp::parser::{
    parse_command, parse_euros_and_cents, parse_money, try_new_order_params, MoneyParseError,
};
use infi_erp::pieces::FinalPiece;

#[test]
fn integers_parse_like_rust() {
    assert_eq!(parse_i64("0"), Some(0));
    assert_eq!(parse_i64("+42"), Some(42));
    assert_eq!(parse_i64("-17"), Some(-17));
    assert_eq!(parse_i64("9223372036854775807"), Some(i64::MAX));
    assert_eq!(parse_i64("-9223372036854775808"), Some(i64::MIN));
    assert_eq!(parse_i64("9223372036854775808"), None);
    assert_eq!(parse_i64("-9223372036854775809"), None);
    assert_eq!(parse_i64(""), None);
    assert_eq!(parse_i64("-"), None);
    assert_eq!(parse_i64("12a"), None);
    assert_eq!(parse_i64(" 1"), None);
    assert_eq!(parse_i32("2147483647"), Some(i32::MAX));
    assert_eq!(parse_i32("2147483648"), None);
}

#[test]
fn decimal_rendering() {
    assert_eq!(u64_to_string(0), "0");
    assert_eq!(u64_to_string(7), "7");
    assert_eq!(u64_to_string(8080), "8080");
    assert_eq!(u64_to_string(1234567890), "1234567890");
}

#[test]
fn euros_and_cents_convert_to_cents() {
    assert_eq!(parse_euros_and_cents("10,50"), Ok(1050));
    assert_eq!(parse_euros_and_cents("10,5"), Ok(1050));
    assert_eq!(parse_euros_and_cents("3.25"), Ok(325));
    assert_eq!(parse_euros_and_cents("0,05"), Ok(5));
}

#[test]
fn euros_and_cents_reject_bad_shapes() {
    assert_eq!(parse_euros_and_cents("10"), Err(MoneyParseError::InvalidSeparator));
    assert_eq!(parse_euros_and_cents("1,000"), Err(MoneyParseError::InvalidCents));
    assert_eq!(parse_euros_and_cents("1,"), Err(MoneyParseError::InvalidCents));
    assert_eq!(parse_euros_and_cents("x,50"), Err(MoneyParseError::InvalidNumber));
    assert_eq!(parse_euros_and_cents("1,x"), Err(MoneyParseError::InvalidNumber));
}

#[test]
fn money_accepts_the_euro_sign_and_whole_euros() {
    assert_eq!(parse_money("€10,50"), Ok(1050));
    assert_eq!(parse_money("€2.50"), Ok(250));
    assert_eq!(parse_money("1000"), Ok(100000));
    assert_eq!(parse_money("€15"), Ok(1500));
    assert_eq!(parse_money("abc"), Err(MoneyParseError::InvalidNumber));
    assert_eq!(parse_money("€1,000"), Err(MoneyParseError::InvalidCents));
}

#[test]
fn money_rejects_overflowing_amounts() {
    assert_eq!(parse_money("92233720368547759"), Err(MoneyParseError::Overflow));
}

#[test]
fn order_params_need_every_field_well_formed() {
    let p = try_new_order_params("18", "P5", "8", "7", "€10,00", "€5,00").unwrap();
    assert_eq!(p.number, 18);
    assert_eq!(p.piece, FinalPiece::P5);
    assert_eq!(p.quantity, 8);
    assert_eq!(p.due_date, 7);
    assert_eq!(p.late_penalty, 1000);
    assert_eq!(p.early_penalty, 500);
    assert!(try_new_order_params("18", "P1", "8", "7", "10", "5").is_none());
    assert!(try_new_order_params("x", "P5", "8", "7", "10", "5").is_none());
    assert!(try_new_order_params("18", "P5", "8", "7", "€", "5").is_none());
}

#[test]
fn command_parses_client_and_orders() {
    let input = "<?xml version=\"1.0\"?>\n<DOCUMENT>\n  <Client NameId=\"Client AA\"/>\n  \
                 <Order Number=\"18\" WorkPiece=\"P5\" Quantity=\"8\" DueDate=\"7\" \
                 LatePen=\"€10,00\" EarlyPen=\"€5,00\"/>\n  <Order Number=\"19\" \
                 WorkPiece=\"P6\" Quantity=\"1\" DueDate=\"4\" LatePen=\"10\" \
                 EarlyPen=\"10\"/>\n</DOCUMENT>\n";
    let orders = parse_command(input).unwrap();
    let expected = vec![
        ClientOrder::new("Client AA".to_string(), 18, FinalPiece::P5, 8, 7, 1000, 500),
        ClientOrder::new("Client AA".to_string(), 19, FinalPiece::P6, 1, 4, 1000, 1000),
    ];
    assert_eq!(orders, expected);
}

#[test]
fn command_drops_malformed_orders_but_keeps_the_rest() {
    let input = "<DOCUMENT><Client NameId=\"Client BB\"/><Order Number=\"1\" \
                 WorkPiece=\"P4\" Quantity=\"2\" DueDate=\"6\" LatePen=\"10\" \
                 EarlyPen=\"5\"/><Order Number=\"2\" WorkPiece=\"P7\" Quantity=\"2\" \
                 DueDate=\"6\" LatePen=\"10\" EarlyPen=\"5\"/></DOCUMENT>";
    let orders = parse_command(input).unwrap();
    assert_eq!(orders.len(), 1);
    assert_eq!(orders[0].order_number, 2);
    assert_eq!(orders[0].work_piece, FinalPiece::P7);
}

#[test]
fn command_rejects_a_missing_document_wrapper() {
    let input = "<Client NameId=\"C\"/><Order Number=\"1\" WorkPiece=\"P5\" Quantity=\"1\" \
                 DueDate=\"2\" LatePen=\"1\" EarlyPen=\"1\"/>";
    assert!(parse_command(input).is_err());
}

#[test]
fn command_rejects_an_empty_order_list() {
    let input = "<DOCUMENT><Client NameId=\"C\"/></DOCUMENT>";
    assert!(parse_command(input).is_err());
}
