use crypbitrage::CliArgs;

#[test]
fn default_instruments() {
    let args = CliArgs::default();
    assert_eq!(args.okx_inst, "BTC-USD-251226-100000-C");
    assert_eq!(args.deribit_inst, "BTC-26DEC25-100000-C");
}

#[test]
fn okx_subscription_message() {
    let args = CliArgs::default();
    assert_eq!(
        args.okx_subscribe_message(),
        r#"{"args":[{"channel":"books","instId":"BTC-USD-251226-100000-C"}],"op":"subscribe"}"#
    );
}

#[test]
fn deribit_channel_name() {
    let args = CliArgs::default();
    assert_eq!(args.deribit_channel(), "book.BTC-26DEC25-100000-C.none.20.100ms");
}

#[test]
fn deribit_subscription_message() {
    let args = CliArgs::default();
    assert_eq!(
        args.deribit_subscribe_message(),
        r#"{"id":0,"jsonrpc":"2.0","method":"public/subscribe","params":{"channels":["book.BTC-26DEC25-100000-C.none.20.100ms"]}}"#
    );
}

#[test]
fn instrument_names_are_escaped() {
    let args = CliArgs { okx_inst: "A\"B\\C".to_string(), deribit_inst: "X\nY".to_string() };
    assert_eq!(
        args.okx_subscribe_message(),
        r#"{"args":[{"channel":"books","instId":"A\"B\\C"}],"op":"subscribe"}"#
    );
    assert_eq!(
        args.deribit_subscribe_message(),
        r#"{"id":0,"jsonrpc":"2.0","method":"public/subscribe","params":{"channels":["book.X\nY.none.20.100ms"]}}"#
    );
}

#[test]
fn messages_match_serde_json_values() {
    let args = CliArgs { okx_inst: "ETH-USD".to_string(), deribit_inst: "ETH-PERP".to_string() };
    let mut okx_inner = serde_json::Map::new();
    okx_inner.insert("channel".to_string(), serde_json::Value::from("books"));
    okx_inner.insert("instId".to_string(), serde_json::Value::from("ETH-USD"));
    let mut okx = serde_json::Map::new();
    okx.insert("op".to_string(), serde_json::Value::from("subscribe"));
    okx.insert(
        "args".to_string(),
        serde_json::Value::Array(vec![serde_json::Value::Object(okx_inner)]),
    );
    assert_eq!(args.okx_subscribe_message(), serde_json::Value::Object(okx).to_string());

    let mut params = serde_json::Map::new();
    params.insert(
        "channels".to_string(),
        serde_json::Value::Array(vec![serde_json::Value::from("book.ETH-PERP.none.20.100ms")]),
    );
    let mut deribit = serde_json::Map::new();
    deribit.insert("method".to_string(), serde_json::Value::from("public/subscribe"));
    deribit.insert("params".to_string(), serde_json::Value::Object(params));
    deribit.insert("jsonrpc".to_string(), serde_json::Value::from("2.0"));
    deribit.insert("id".to_string(), serde_json::Value::from(0));
    assert_eq!(args.deribit_subscribe_message(), serde_json::Value::Object(deribit).to_string());
}
