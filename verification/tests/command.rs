use aptly::client::{AptosClient, Method, Request};
use aptly::command::{
    module_output, parse_arguments, table_body, view_body, AccountCommand, AccountSubcommand,
    DEFAULT_PAGE_LIMIT,
    BlockCommand, ByVersionArgs, Command, CommandError, EventsCommand, JsonInput, NodeCommand,
    TableItemArgs, TxCommand, TxSubcommand, ViewCommand,
};
use aptly::json::Json;

fn client() -> AptosClient {
    AptosClient::new("http://node/v1").unwrap()
}

fn get(path: &str) -> Request {
    Request { method: Method::Get, url: format!("http://node/v1{}", path), body: None }
}

fn post(path: &str, body: Json) -> Request {
    Request { method: Method::Post, url: format!("http://node/v1{}", path), body: Some(body) }
}

fn text(s: &str) -> Json {
    Json::String(s.to_string())
}

fn number(s: &str) -> Json {
    Json::Number(s.to_string())
}

fn object(members: Vec<(&str, Json)>) -> Json {
    Json::Object(members.into_iter().map(|(k, v)| (k.to_string(), v)).collect())
}

fn account(sub: AccountSubcommand) -> AccountCommand {
    AccountCommand { command: Some(sub), address: None }
}

fn s(v: &str) -> String {
    v.to_string()
}

#[test]
fn node_commands() {
    let c = client();
    assert_eq!(NodeCommand::Ledger.request(&c), get("/"));
    assert_eq!(NodeCommand::Spec.request(&c), get("/spec.json"));
    assert_eq!(NodeCommand::Health.request(&c), get("/-/healthy"));
    assert_eq!(NodeCommand::Info.request(&c), get("/info"));
    assert_eq!(NodeCommand::EstimateGasPrice.request(&c), get("/estimate_gas_price"));
    assert_eq!(NodeCommand::Ledger.path(), "/");
}

#[test]
fn account_by_address() {
    let c = client();
    let cmd = AccountCommand { command: None, address: Some(s("0x1")) };
    assert_eq!(cmd.request(&c), Ok(get("/accounts/0x1")));
}

#[test]
fn account_subcommand_goes_before_address() {
    let c = client();
    let cmd = AccountCommand {
        command: Some(AccountSubcommand::Resources { address: s("0x2") }),
        address: Some(s("0x1")),
    };
    assert_eq!(cmd.request(&c), Ok(get("/accounts/0x2/resources")));
}

#[test]
fn account_without_address_or_subcommand_is_a_usage_error() {
    let cmd = AccountCommand { command: None, address: None };
    assert_eq!(cmd.request(&client()), Err(CommandError::MissingAddress));
    assert_eq!(CommandError::MissingAddress.message(), "missing address or subcommand");
}

#[test]
fn account_resources_and_modules() {
    let c = client();
    assert_eq!(
        account(AccountSubcommand::Resources { address: s("0xa") }).request(&c),
        Ok(get("/accounts/0xa/resources"))
    );
    assert_eq!(
        account(AccountSubcommand::Modules { address: s("0xa") }).request(&c),
        Ok(get("/accounts/0xa/modules"))
    );
    assert_eq!(
        account(AccountSubcommand::Module {
            address: s("0xa"),
            module_name: s("coin"),
            abi: true,
            bytecode: false
        })
        .request(&c),
        Ok(get("/accounts/0xa/module/coin"))
    );
}

#[test]
fn resource_type_is_percent_encoded() {
    let c = client();
    let cmd = account(AccountSubcommand::Resource {
        address: s("0x1"),
        resource_type: s("0x1::coin::CoinStore<0x1::aptos_coin::AptosCoin>"),
    });
    assert_eq!(
        cmd.request(&c),
        Ok(get(
            "/accounts/0x1/resource/0x1%3A%3Acoin%3A%3ACoinStore%3C0x1%3A%3Aaptos_coin%3A%3AAptosCoin%3E"
        ))
    );
    let cmd = account(AccountSubcommand::Resource {
        address: s("0x1"),
        resource_type: s("a b/é~-_.Z9"),
    });
    assert_eq!(cmd.request(&c), Ok(get("/accounts/0x1/resource/a%20b%2F%C3%A9~-_.Z9")));
}

#[test]
fn balance_defaults_to_the_native_coin() {
    let c = client();
    let cmd = account(AccountSubcommand::Balance { address: s("0x1"), asset_type: None });
    let request = cmd.request(&c).unwrap();
    assert_eq!(request, get("/accounts/0x1/balance/0x1%3A%3Aaptos_coin%3A%3AAptosCoin"));
    assert!(request.url.contains("0x1%3A%3Aaptos_coin%3A%3AAptosCoin"));
    let cmd = account(AccountSubcommand::Balance {
        address: s("0x1"),
        asset_type: Some(s("0xa::m::T")),
    });
    assert_eq!(cmd.request(&c), Ok(get("/accounts/0x1/balance/0xa%3A%3Am%3A%3AT")));
}

#[test]
fn start_is_sent_only_when_positive() {
    let c = client();
    let at = |start: u64| {
        account(AccountSubcommand::Txs { address: s("0x1"), limit: 25, start })
            .request(&c)
            .unwrap()
    };
    assert_eq!(at(0), get("/accounts/0x1/transactions?limit=25"));
    assert!(!at(0).url.contains("start="));
    assert_eq!(at(5), get("/accounts/0x1/transactions?limit=25&start=5"));
    assert!(at(5).url.contains("start=5"));
    assert_eq!(
        at(u64::MAX),
        get("/accounts/0x1/transactions?limit=25&start=18446744073709551615")
    );
}

#[test]
fn block_by_height_and_by_version() {
    let c = client();
    let by_height = BlockCommand { command: None, height: Some(s("77")), with_transactions: true };
    assert_eq!(by_height.request(&c), Ok(get("/blocks/by_height/77?with_transactions=true")));
    let by_height = BlockCommand { command: None, height: Some(s("77")), with_transactions: false };
    assert_eq!(by_height.request(&c), Ok(get("/blocks/by_height/77?with_transactions=false")));
    let by_version = BlockCommand {
        command: Some(ByVersionArgs { version: s("9"), with_transactions: false }),
        height: Some(s("77")),
        with_transactions: true,
    };
    assert_eq!(by_version.request(&c), Ok(get("/blocks/by_version/9?with_transactions=false")));
}

#[test]
fn block_without_height_or_subcommand_is_a_usage_error() {
    let cmd = BlockCommand { command: None, height: None, with_transactions: true };
    assert_eq!(cmd.request(&client()), Err(CommandError::MissingHeight));
    assert_eq!(CommandError::MissingHeight.message(), "missing block height or subcommand");
}

#[test]
fn events_of_an_account() {
    let c = client();
    let cmd = EventsCommand { address: s("0x1"), creation_number: s("3"), limit: 10, start: 0 };
    assert_eq!(cmd.request(&c), get("/accounts/0x1/events/3?limit=10"));
    let cmd = EventsCommand { address: s("0x1"), creation_number: s("3"), limit: 0, start: 100 };
    assert_eq!(cmd.request(&c), get("/accounts/0x1/events/3?limit=0&start=100"));
}

#[test]
fn table_item_sends_the_key_as_json() {
    let c = client();
    let cmd = TableItemArgs {
        table_handle: s("0xbeef"),
        key_type: s("address"),
        value_type: s("u128"),
        key: s("{\"id\": 7}"),
    };
    let body = object(vec![
        ("key_type", text("address")),
        ("value_type", text("u128")),
        ("key", object(vec![("id", number("7"))])),
    ]);
    assert_eq!(cmd.request(&c), Ok(post("/tables/0xbeef/item", body)));
    assert_eq!(
        table_body(s("a"), s("b"), Json::Null),
        object(vec![("key_type", text("a")), ("value_type", text("b")), ("key", Json::Null)])
    );
}

#[test]
fn table_key_that_is_not_json_is_reported_as_given() {
    let cmd = TableItemArgs {
        table_handle: s("0xbeef"),
        key_type: s("address"),
        value_type: s("u128"),
        key: s("0x1"),
    };
    match cmd.request(&client()) {
        Err(CommandError::InvalidJson { input, literal, detail }) => {
            assert_eq!(input, JsonInput::TableKey);
            assert_eq!(literal, "0x1");
            let message =
                CommandError::InvalidJson { input, literal, detail: detail.clone() }.message();
            assert_eq!(message, format!("failed to parse key as JSON: 0x1: {}", detail));
        }
        other => panic!("{:?}", other),
    }
}

#[test]
fn view_arguments_are_parsed_one_by_one() {
    let c = client();
    let cmd = ViewCommand {
        function: s("0x1::coin::balance"),
        type_args: vec![s("0x1::aptos_coin::AptosCoin")],
        args: vec![s("\"hello\""), s("42")],
    };
    let body = object(vec![
        ("function", text("0x1::coin::balance")),
        ("type_arguments", Json::Array(vec![text("0x1::aptos_coin::AptosCoin")])),
        ("arguments", Json::Array(vec![text("hello"), number("42")])),
    ]);
    let request = cmd.request(&c).unwrap();
    assert_eq!(request, post("/view", body));
    assert_eq!(
        request.body.unwrap().into_member("arguments"),
        Json::Array(vec![text("hello"), number("42")])
    );
}

#[test]
fn view_without_arguments() {
    let cmd = ViewCommand { function: s("0x1::m::f"), type_args: vec![], args: vec![] };
    let body = object(vec![
        ("function", text("0x1::m::f")),
        ("type_arguments", Json::Array(vec![])),
        ("arguments", Json::Array(vec![])),
    ]);
    assert_eq!(cmd.request(&client()), Ok(post("/view", body)));
    assert_eq!(
        view_body(s("f"), &vec![s("T"), s("U")], vec![Json::Bool(true)]),
        object(vec![
            ("function", text("f")),
            ("type_arguments", Json::Array(vec![text("T"), text("U")])),
            ("arguments", Json::Array(vec![Json::Bool(true)])),
        ])
    );
}

#[test]
fn first_view_argument_that_is_not_json_is_reported() {
    let cmd = ViewCommand {
        function: s("0x1::m::f"),
        type_args: vec![],
        args: vec![s("1"), s("hello"), s("also bad")],
    };
    match cmd.request(&client()) {
        Err(CommandError::InvalidJson { input, literal, detail }) => {
            assert_eq!(input, JsonInput::ViewArgument);
            assert_eq!(literal, "hello");
            let message =
                CommandError::InvalidJson { input, literal, detail: detail.clone() }.message();
            assert_eq!(message, format!("failed to parse argument as JSON: hello: {}", detail));
        }
        other => panic!("{:?}", other),
    }
    assert_eq!(parse_arguments(&vec![s("[1]"), s("null")]), Ok(vec![
        Json::Array(vec![number("1")]),
        Json::Null
    ]));
    assert_eq!(parse_arguments(&vec![]), Ok(vec![]));
}

#[test]
fn tx_by_version_or_by_hash() {
    let c = client();
    let lookup = |v: &str| TxCommand { command: None, version_or_hash: Some(s(v)) }.request(&c);
    assert_eq!(lookup("12345"), Ok(get("/transactions/by_version/12345")));
    assert_eq!(lookup("0xabcdef0123"), Ok(get("/transactions/by_hash/0xabcdef0123")));
    assert_eq!(lookup("0"), Ok(get("/transactions/by_version/0")));
    assert_eq!(lookup("+7"), Ok(get("/transactions/by_version/+7")));
    assert_eq!(
        lookup("18446744073709551615"),
        Ok(get("/transactions/by_version/18446744073709551615"))
    );
    assert_eq!(
        lookup("18446744073709551616"),
        Ok(get("/transactions/by_hash/18446744073709551616"))
    );
    assert_eq!(lookup(""), Ok(get("/transactions/by_hash/")));
}

#[test]
fn default_limit_is_always_sent() {
    assert_eq!(DEFAULT_PAGE_LIMIT, 25);
    let cmd = TxCommand {
        command: Some(TxSubcommand::List { limit: DEFAULT_PAGE_LIMIT, start: 0 }),
        version_or_hash: None,
    };
    assert_eq!(cmd.request(&client()), Ok(get("/transactions?limit=25")));
}

#[test]
fn tx_list() {
    let c = client();
    let list = |limit: u64, start: u64| TxCommand {
        command: Some(TxSubcommand::List { limit, start }),
        version_or_hash: Some(s("1")),
    }
    .request(&c);
    assert_eq!(list(25, 0), Ok(get("/transactions?limit=25")));
    assert_eq!(list(1, 5), Ok(get("/transactions?limit=1&start=5")));
}

#[test]
fn tx_submit_posts_the_document() {
    let c = client();
    let cmd = TxCommand {
        command: Some(TxSubcommand::Submit { document: s("{\"sender\": \"0x1\"}\n") }),
        version_or_hash: None,
    };
    assert_eq!(
        cmd.request(&c),
        Ok(post("/transactions", object(vec![("sender", text("0x1"))])))
    );
}

#[test]
fn tx_submit_of_what_is_not_json_fails() {
    let cmd = TxCommand {
        command: Some(TxSubcommand::Submit { document: s("sender: 0x1") }),
        version_or_hash: None,
    };
    match cmd.request(&client()) {
        Err(CommandError::InvalidJson { input, literal, detail }) => {
            assert_eq!(input, JsonInput::SignedTransaction);
            assert_eq!(literal, "sender: 0x1");
            let message =
                CommandError::InvalidJson { input, literal, detail: detail.clone() }.message();
            assert_eq!(
                message,
                format!("failed to parse signed transaction JSON from stdin: {}", detail)
            );
        }
        other => panic!("{:?}", other),
    }
}

#[test]
fn tx_without_anything_is_a_usage_error() {
    let cmd = TxCommand { command: None, version_or_hash: None };
    assert_eq!(cmd.request(&client()), Err(CommandError::MissingTransaction));
    assert_eq!(
        CommandError::MissingTransaction.message(),
        "missing version/hash or subcommand"
    );
}

#[test]
fn module_output_selects_what_was_asked_for() {
    let module = || {
        object(vec![("abi", object(vec![("x", number("1"))])), ("bytecode", text("0x.."))])
    };
    assert_eq!(module_output(module(), true, false), object(vec![("x", number("1"))]));
    assert_eq!(module_output(module(), false, true), text("0x.."));
    assert_eq!(module_output(module(), true, true), object(vec![("x", number("1"))]));
    assert_eq!(module_output(module(), false, false), module());
    let bare = || object(vec![("bytecode", text("0x.."))]);
    assert_eq!(module_output(bare(), true, false), Json::Null);
    assert_eq!(module_output(Json::Array(vec![]), false, true), Json::Null);
}

#[test]
fn account_output_is_the_answer_but_for_a_module() {
    let module = || {
        object(vec![("abi", object(vec![("x", number("1"))])), ("bytecode", text("0x.."))])
    };
    let cmd = account(AccountSubcommand::Module {
        address: s("0x1"),
        module_name: s("coin"),
        abi: true,
        bytecode: false,
    });
    assert_eq!(cmd.output(module()), object(vec![("x", number("1"))]));
    let cmd = account(AccountSubcommand::Resources { address: s("0x1") });
    assert_eq!(cmd.output(module()), module());
    let cmd = AccountCommand { command: None, address: Some(s("0x1")) };
    assert_eq!(cmd.output(module()), module());
}

#[test]
fn every_command_stands_for_one_request() {
    let c = client();
    assert_eq!(Command::Node(NodeCommand::Info).request(&c), Ok(get("/info")));
    assert_eq!(
        Command::Account(AccountCommand { command: None, address: Some(s("0x1")) }).request(&c),
        Ok(get("/accounts/0x1"))
    );
    assert_eq!(
        Command::Block(BlockCommand { command: None, height: Some(s("5")), with_transactions: false })
            .request(&c),
        Ok(get("/blocks/by_height/5?with_transactions=false"))
    );
    assert_eq!(
        Command::Events(EventsCommand {
            address: s("0x1"),
            creation_number: s("0"),
            limit: 25,
            start: 0
        })
        .request(&c),
        Ok(get("/accounts/0x1/events/0?limit=25"))
    );
    assert_eq!(
        Command::TableItem(TableItemArgs {
            table_handle: s("0xh"),
            key_type: s("u64"),
            value_type: s("u64"),
            key: s("\"7\""),
        })
        .request(&c),
        Ok(post(
            "/tables/0xh/item",
            object(vec![("key_type", text("u64")), ("value_type", text("u64")), ("key", text("7"))])
        ))
    );
    assert_eq!(
        Command::View(ViewCommand { function: s("f"), type_args: vec![], args: vec![s("x")] })
            .request(&c)
            .map_err(|e| matches!(e, CommandError::InvalidJson { .. })),
        Err(true)
    );
    assert_eq!(
        Command::Tx(TxCommand { command: None, version_or_hash: Some(s("42")) }).request(&c),
        Ok(get("/transactions/by_version/42"))
    );
    assert_eq!(
        Command::Tx(TxCommand { command: None, version_or_hash: None }).request(&c),
        Err(CommandError::MissingTransaction)
    );
}

#[test]
fn only_a_module_is_shown_in_part() {
    let module = || object(vec![("abi", number("1")), ("bytecode", text("0x"))]);
    let asked = Command::Account(account(AccountSubcommand::Module {
        address: s("0x1"),
        module_name: s("m"),
        abi: false,
        bytecode: true,
    }));
    assert_eq!(asked.output(module()), text("0x"));
    assert_eq!(Command::Node(NodeCommand::Ledger).output(module()), module());
    assert_eq!(
        Command::Tx(TxCommand { command: None, version_or_hash: Some(s("1")) }).output(module()),
        module()
    );
}
