use juno::symbol::{dash_index, iter_assets, SymbolExt};

#[test]
fn test_symbol_assets() {
    assert_eq!("eth-btc".assets(), ("eth", "btc"));
}

#[test]
fn test_symbol_base_asset() {
    assert_eq!("eth-btc".base_asset(), "eth");
}

#[test]
fn test_symbol_quote_asset() {
    assert_eq!("eth-btc".quote_asset(), "btc");
}

#[test]
fn test_iter_assets() {
    let symbols = vec!["eth-btc".to_string(), "ltc-btc".to_string()];
    let output = iter_assets(&symbols);
    let expected_output = vec!["eth", "btc", "ltc", "btc"];
    assert_eq!(output, expected_output);
}

#[test]
fn test_iter_assets_empty() {
    let symbols: Vec<String> = Vec::new();
    assert_eq!(iter_assets(&symbols), Vec::<String>::new());
}

#[test]
fn test_dash_index() {
    assert_eq!(dash_index("eth-btc"), 3);
    assert_eq!(dash_index("-x"), 0);
    assert_eq!(dash_index("nodash"), 6);
}
