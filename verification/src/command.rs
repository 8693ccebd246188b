//! The commands of the tool: the request that each one stands for, and
//! what is shown of the node's answer.
use crate::client::{endpoint_of, AptosClient, Method, Request};
use crate::json::{json_of_text, Json, JsonMember, JsonValue};
use crate::text::{
    decimal, is_digit, is_u64_literal, lemma_decimal_denotes, lemma_decimal_is_u64_literal, occurs_in,
    parses_as_u64, percent_encode, percent_encoded, push_decimal,
};
use vstd::prelude::*;
use vstd::string::*;

verus! {

/// How many items a list asks for where no limit is given.
pub const DEFAULT_PAGE_LIMIT: u64 = 25;

/// The questions that can be put to the node about itself.
#[derive(Clone, Copy, Debug, PartialEq, Eq, Structural)]
pub enum NodeCommand {
    Ledger,
    Spec,
    Health,
    Info,
    EstimateGasPrice,
}

/// What to fetch of an account.
#[derive(Clone, Debug, PartialEq, Eq)]
pub enum AccountSubcommand {
    Resources { address: String },
    Resource { address: String, resource_type: String },
    Modules { address: String },
    /// One module; with `abi` or `bytecode` only that member of it.
    Module { address: String, module_name: String, abi: bool, bytecode: bool },
    /// The balance in `asset_type`, by default in the native coin.
    Balance { address: String, asset_type: Option<String> },
    Txs { address: String, limit: u64, start: u64 },
}

/// `account`: either a subcommand or, for the account itself, an address.
#[derive(Clone, Debug, PartialEq, Eq)]
pub struct AccountCommand {
    pub command: Option<AccountSubcommand>,
    pub address: Option<String>,
}

/// `block by-version`.
#[derive(Clone, Debug, PartialEq, Eq)]
pub struct ByVersionArgs {
    pub version: String,
    pub with_transactions: bool,
}

/// `block`: either the block that holds a version, or the one at a height.
#[derive(Clone, Debug, PartialEq, Eq)]
pub struct BlockCommand {
    pub command: Option<ByVersionArgs>,
    pub height: Option<String>,
    pub with_transactions: bool,
}

/// `events`.
#[derive(Clone, Debug, PartialEq, Eq)]
pub struct EventsCommand {
    pub address: String,
    pub creation_number: String,
    pub limit: u64,
    pub start: u64,
}

/// `table item`. The key is JSON text.
#[derive(Clone, Debug, PartialEq, Eq)]
pub struct TableItemArgs {
    pub table_handle: String,
    pub key_type: String,
    pub value_type: String,
    pub key: String,
}

/// `view`. Each argument is JSON text.
#[derive(Clone, Debug, PartialEq, Eq)]
pub struct ViewCommand {
    pub function: String,
    pub type_args: Vec<String>,
    pub args: Vec<String>,
}

/// What to do with transactions other than looking one up.
#[derive(Clone, Debug, PartialEq, Eq)]
pub enum TxSubcommand {
    List { limit: u64, start: u64 },
    /// Submit the signed transaction whose JSON text is `document`.
    Submit { document: String },
}

/// `tx`: either a subcommand or a version or hash to look up.
#[derive(Clone, Debug, PartialEq, Eq)]
pub struct TxCommand {
    pub command: Option<TxSubcommand>,
    pub version_or_hash: Option<String>,
}

/// Which text was to be JSON and is not.
#[derive(Clone, Copy, Debug, PartialEq, Eq, Structural)]
pub enum JsonInput {
    TableKey,
    ViewArgument,
    SignedTransaction,
}

/// Why a command stands for no request.
#[derive(Clone, Debug, PartialEq, Eq)]
pub enum CommandError {
    /// `account` with neither address nor subcommand.
    MissingAddress,
    /// `block` with neither height nor subcommand.
    MissingHeight,
    /// `tx` with neither version, hash nor subcommand.
    MissingTransaction,
    /// A text that was to be JSON is not: the text as given, and the
    /// parser's message.
    InvalidJson { input: JsonInput, literal: String, detail: String },
}

impl CommandError {
    /// The text of the error as shown to the user.
    pub open spec fn message_text(self) -> Seq<char> {
        match self {
            CommandError::MissingAddress => "missing address or subcommand"@,
            CommandError::MissingHeight => "missing block height or subcommand"@,
            CommandError::MissingTransaction => "missing version/hash or subcommand"@,
            CommandError::InvalidJson { input, literal, detail } => match input {
                JsonInput::TableKey => "failed to parse key as JSON: "@ + literal@ + ": "@
                    + detail@,
                JsonInput::ViewArgument => "failed to parse argument as JSON: "@ + literal@
                    + ": "@ + detail@,
                JsonInput::SignedTransaction =>
                    "failed to parse signed transaction JSON from stdin: "@ + detail@,
            },
        }
    }

    /// The text of the error as shown to the user.
    pub fn message(&self) -> (r: String)
        ensures
            r@ == self.message_text(),
    {
        match self {
            CommandError::MissingAddress => String::from_str("missing address or subcommand"),
            CommandError::MissingHeight => String::from_str("missing block height or subcommand"),
            CommandError::MissingTransaction => String::from_str(
                "missing version/hash or subcommand",
            ),
            CommandError::InvalidJson { input, literal, detail } => match input {
                JsonInput::TableKey => {
                    let mut out = String::from_str("failed to parse key as JSON: ");
                    out.append(literal.as_str());
                    out.append(": ");
                    out.append(detail.as_str());
                    out
                },
                JsonInput::ViewArgument => {
                    let mut out = String::from_str("failed to parse argument as JSON: ");
                    out.append(literal.as_str());
                    out.append(": ");
                    out.append(detail.as_str());
                    out
                },
                JsonInput::SignedTransaction => {
                    let mut out = String::from_str(
                        "failed to parse signed transaction JSON from stdin: ",
                    );
                    out.append(detail.as_str());
                    out
                },
            },
        }
    }
}

/// Whether `r` is the GET request of `client` for `path`.
pub open spec fn is_get(r: Request, client: AptosClient, path: Seq<char>) -> bool {
    &&& r.method == Method::Get
    &&& r.url@ == endpoint_of(client@, path)
    &&& r.body.is_none()
}

/// Whether `r` is the POST request of `client` that sends `body` to
/// `path`.
pub open spec fn is_post(r: Request, client: AptosClient, path: Seq<char>, body: JsonValue) -> bool {
    &&& r.method == Method::Post
    &&& r.url@ == endpoint_of(client@, path)
    &&& r.body matches Some(b) && b@ == body
}

/// The query that asks for `limit` items, from `start` on where that is
/// not the beginning.
pub open spec fn query_text(limit: u64, start: u64) -> Seq<char> {
    if start > 0 {
        "?limit="@ + decimal(limit as nat) + "&start="@ + decimal(start as nat)
    } else {
        "?limit="@ + decimal(limit as nat)
    }
}

/// `path` with the query that asks for `limit` items from `start` on.
pub open spec fn page_query(path: Seq<char>, limit: u64, start: u64) -> Seq<char> {
    path + query_text(limit, start)
}

/// The query for items from the beginning on does not name `start`.
pub proof fn lemma_first_page_names_no_start(limit: u64)
    ensures
        !occurs_in("start="@, query_text(limit, 0)),
{
    reveal_strlit("start=");
    reveal_strlit("?limit=");
    lemma_decimal_denotes(limit as nat);
    let query = query_text(limit, 0);
    let digits = decimal(limit as nat);
    assert forall|i: int| 0 <= i < query.len() implies query[i] != 's' by {
        if i >= 7 {
            assert(query[i] == digits[i - 7]);
            assert(is_digit(digits[i - 7]));
        }
    }
    assert forall|i: int| 0 <= i && i + 6 <= query.len() implies #[trigger] query.subrange(
        i,
        i + 6,
    ) != "start="@ by {
        assert(query.subrange(i, i + 6)[0] == query[i]);
        assert("start="@[0] == 's');
    }
}

/// The query for items from a later place on names `start` with that
/// place in decimal.
pub proof fn lemma_later_page_names_start(path: Seq<char>, limit: u64, start: u64)
    requires
        start > 0,
    ensures
        occurs_in("start="@ + decimal(start as nat), page_query(path, limit, start)),
{
    reveal_strlit("start=");
    reveal_strlit("&start=");
    reveal_strlit("?limit=");
    let needle = "start="@ + decimal(start as nat);
    let whole = page_query(path, limit, start);
    let at = (path.len() + 7 + decimal(limit as nat).len() + 1) as int;
    assert(whole.subrange(at, at + needle.len()) =~= needle);
}

/// The text of a flag in a query.
pub open spec fn flag_text(flag: bool) -> Seq<char> {
    if flag {
        "true"@
    } else {
        "false"@
    }
}

fn push_page_query(path: &mut String, limit: u64, start: u64)
    ensures
        final(path)@ == page_query(old(path)@, limit, start),
{
    path.append("?limit=");
    push_decimal(path, limit);
    if start > 0 {
        path.append("&start=");
        push_decimal(path, start);
    }
    assert(final(path)@ =~= old(path)@ + query_text(limit, start));
}

fn push_flag(path: &mut String, flag: bool)
    ensures
        final(path)@ == old(path)@ + flag_text(flag),
{
    if flag {
        path.append("true");
    } else {
        path.append("false");
    }
}

impl NodeCommand {
    /// The path that answers the question.
    pub open spec fn path_text(self) -> Seq<char> {
        match self {
            NodeCommand::Ledger => "/"@,
            NodeCommand::Spec => "/spec.json"@,
            NodeCommand::Health => "/-/healthy"@,
            NodeCommand::Info => "/info"@,
            NodeCommand::EstimateGasPrice => "/estimate_gas_price"@,
        }
    }

    /// The path that answers the question.
    pub fn path(self) -> (r: &'static str)
        ensures
            r@ == self.path_text(),
    {
        match self {
            NodeCommand::Ledger => "/",
            NodeCommand::Spec => "/spec.json",
            NodeCommand::Health => "/-/healthy",
            NodeCommand::Info => "/info",
            NodeCommand::EstimateGasPrice => "/estimate_gas_price",
        }
    }

    /// The request that the command stands for.
    pub fn request(self, client: &AptosClient) -> (r: Request)
        ensures
            is_get(r, *client, self.path_text()),
    {
        client.get_json(self.path())
    }
}

impl AccountSubcommand {
    /// The path of what the subcommand fetches. A resource type and an
    /// asset type are percent-encoded, addresses and names are not.
    pub open spec fn path_text(self) -> Seq<char> {
        match self {
            AccountSubcommand::Resources { address } => "/accounts/"@ + address@ + "/resources"@,
            AccountSubcommand::Resource { address, resource_type } => "/accounts/"@ + address@
                + "/resource/"@ + percent_encoded(resource_type@),
            AccountSubcommand::Modules { address } => "/accounts/"@ + address@ + "/modules"@,
            AccountSubcommand::Module { address, module_name, abi, bytecode } => "/accounts/"@
                + address@ + "/module/"@ + module_name@,
            AccountSubcommand::Balance { address, asset_type } => "/accounts/"@ + address@
                + "/balance/"@ + percent_encoded(
                match asset_type {
                    Some(asset) => asset@,
                    None => "0x1::aptos_coin::AptosCoin"@,
                },
            ),
            AccountSubcommand::Txs { address, limit, start } => page_query(
                "/accounts/"@ + address@ + "/transactions"@,
                limit,
                start,
            ),
        }
    }

    /// The path of what the subcommand fetches.
    pub fn path(&self) -> (r: String)
        ensures
            r@ == self.path_text(),
    {
        let mut path = String::from_str("/accounts/");
        match self {
            AccountSubcommand::Resources { address } => {
                path.append(address.as_str());
                path.append("/resources");
            },
            AccountSubcommand::Resource { address, resource_type } => {
                path.append(address.as_str());
                path.append("/resource/");
                let encoded = percent_encode(resource_type.as_str());
                path.append(encoded.as_str());
            },
            AccountSubcommand::Modules { address } => {
                path.append(address.as_str());
                path.append("/modules");
            },
            AccountSubcommand::Module { address, module_name, abi, bytecode } => {
                path.append(address.as_str());
                path.append("/module/");
                path.append(module_name.as_str());
            },
            AccountSubcommand::Balance { address, asset_type } => {
                path.append(address.as_str());
                path.append("/balance/");
                let encoded = match asset_type {
                    Some(asset) => percent_encode(asset.as_str()),
                    None => percent_encode("0x1::aptos_coin::AptosCoin"),
                };
                path.append(encoded.as_str());
            },
            AccountSubcommand::Txs { address, limit, start } => {
                path.append(address.as_str());
                path.append("/transactions");
                push_page_query(&mut path, *limit, *start);
            },
        }
        path
    }
}

/// What is shown of a module: all of it unless a member is asked for, the
/// member `abi` where that is asked for, else the member `bytecode`; null
/// in place of a member that is not there.
pub open spec fn module_output_value(module: JsonValue, abi: bool, bytecode: bool) -> JsonValue {
    if abi {
        module.member_or_null("abi"@)
    } else if bytecode {
        module.member_or_null("bytecode"@)
    } else {
        module
    }
}

/// What is shown of the module that the node sent.
pub fn module_output(module: Json, abi: bool, bytecode: bool) -> (r: Json)
    ensures
        r@ == module_output_value(module@, abi, bytecode),
{
    if abi {
        module.into_member("abi")
    } else if bytecode {
        module.into_member("bytecode")
    } else {
        module
    }
}

impl AccountCommand {
    /// The path of what the command fetches; none where it names neither
    /// a subcommand nor an address. A subcommand goes before an address.
    pub open spec fn path_text(self) -> Option<Seq<char>> {
        match (self.command, self.address) {
            (Some(sub), _) => Some(sub.path_text()),
            (None, Some(address)) => Some("/accounts/"@ + address@),
            (None, None) => None,
        }
    }

    /// Whether `r` is what the command stands for at `client`: the GET
    /// request for its path, or the error that an address is missing.
    pub open spec fn answered_by(
        self,
        client: AptosClient,
        r: Result<Request, CommandError>,
    ) -> bool {
        match self.path_text() {
            Some(path) => r matches Ok(request) && is_get(request, client, path),
            None => r matches Err(CommandError::MissingAddress),
        }
    }

    /// What is shown of an answer: of a module what was asked for, of
    /// anything else the whole answer.
    pub open spec fn shown(self, response: JsonValue) -> JsonValue {
        match self.command {
            Some(AccountSubcommand::Module { address, module_name, abi, bytecode }) =>
                module_output_value(response, abi, bytecode),
            _ => response,
        }
    }

    /// The request that the command stands for.
    pub fn request(&self, client: &AptosClient) -> (r: Result<Request, CommandError>)
        ensures
            self.answered_by(*client, r),
    {
        match &self.command {
            Some(sub) => {
                let path = sub.path();
                Ok(client.get_json(path.as_str()))
            },
            None => match &self.address {
                Some(address) => {
                    let mut path = String::from_str("/accounts/");
                    path.append(address.as_str());
                    Ok(client.get_json(path.as_str()))
                },
                None => Err(CommandError::MissingAddress),
            },
        }
    }

    /// What is shown of the node's answer: of a module what was asked
    /// for, of anything else the whole answer.
    pub fn output(&self, response: Json) -> (r: Json)
        ensures
            r@ == self.shown(response@),
    {
        match &self.command {
            Some(AccountSubcommand::Module { address, module_name, abi, bytecode }) => module_output(
                response,
                *abi,
                *bytecode,
            ),
            _ => response,
        }
    }
}

impl BlockCommand {
    /// The path of the block; none where the command names neither a
    /// version nor a height. Each form has its own flag.
    pub open spec fn path_text(self) -> Option<Seq<char>> {
        match (self.command, self.height) {
            (Some(by_version), _) => Some(
                "/blocks/by_version/"@ + by_version.version@ + "?with_transactions="@ + flag_text(
                    by_version.with_transactions,
                ),
            ),
            (None, Some(height)) => Some(
                "/blocks/by_height/"@ + height@ + "?with_transactions="@ + flag_text(
                    self.with_transactions,
                ),
            ),
            (None, None) => None,
        }
    }

    /// Whether `r` is what the command stands for at `client`: the GET
    /// request for its path, or the error that a height is missing.
    pub open spec fn answered_by(
        self,
        client: AptosClient,
        r: Result<Request, CommandError>,
    ) -> bool {
        match self.path_text() {
            Some(path) => r matches Ok(request) && is_get(request, client, path),
            None => r matches Err(CommandError::MissingHeight),
        }
    }

    /// The request that the command stands for.
    pub fn request(&self, client: &AptosClient) -> (r: Result<Request, CommandError>)
        ensures
            self.answered_by(*client, r),
    {
        match &self.command {
            Some(by_version) => {
                let mut path = String::from_str("/blocks/by_version/");
                path.append(by_version.version.as_str());
                path.append("?with_transactions=");
                push_flag(&mut path, by_version.with_transactions);
                Ok(client.get_json(path.as_str()))
            },
            None => match &self.height {
                Some(height) => {
                    let mut path = String::from_str("/blocks/by_height/");
                    path.append(height.as_str());
                    path.append("?with_transactions=");
                    push_flag(&mut path, self.with_transactions);
                    Ok(client.get_json(path.as_str()))
                },
                None => Err(CommandError::MissingHeight),
            },
        }
    }
}

impl EventsCommand {
    /// The path of the events.
    pub open spec fn path_text(self) -> Seq<char> {
        page_query(
            "/accounts/"@ + self.address@ + "/events/"@ + self.creation_number@,
            self.limit,
            self.start,
        )
    }

    /// The request that the command stands for.
    pub fn request(&self, client: &AptosClient) -> (r: Request)
        ensures
            is_get(r, *client, self.path_text()),
    {
        let mut path = String::from_str("/accounts/");
        path.append(self.address.as_str());
        path.append("/events/");
        path.append(self.creation_number.as_str());
        push_page_query(&mut path, self.limit, self.start);
        client.get_json(path.as_str())
    }
}

/// The payload that asks for an item of a table.
pub open spec fn table_body_value(key_type: Seq<char>, value_type: Seq<char>, key: JsonValue) -> JsonValue {
    JsonValue::Object(
        seq![
            (JsonMember { name: "key_type"@, value: JsonValue::String(key_type) }),
            (JsonMember { name: "value_type"@, value: JsonValue::String(value_type) }),
            (JsonMember { name: "key"@, value: key }),
        ],
    )
}

/// The payload that asks for the item at `key` of a table.
pub fn table_body(key_type: String, value_type: String, key: Json) -> (r: Json)
    ensures
        r@ == table_body_value(key_type@, value_type@, key@),
{
    let key_type_json = Json::String(key_type);
    let value_type_json = Json::String(value_type);
    assert(key_type_json@ == JsonValue::String(key_type@));
    assert(value_type_json@ == JsonValue::String(value_type@));
    let mut members: Vec<(String, Json)> = Vec::new();
    members.push((String::from_str("key_type"), key_type_json));
    members.push((String::from_str("value_type"), value_type_json));
    members.push((String::from_str("key"), key));
    let r = Json::Object(members);
    assert(r@->Object_0 =~= table_body_value(key_type@, value_type@, key@)->Object_0);
    r
}

impl TableItemArgs {
    /// The path of the table's items.
    pub open spec fn path_text(self) -> Seq<char> {
        "/tables/"@ + self.table_handle@ + "/item"@
    }

    /// Whether `r` is what the command stands for at `client`: the POST
    /// request with the key as a document, or, where the key is not
    /// JSON, the error that holds it as given.
    pub open spec fn answered_by(
        self,
        client: AptosClient,
        r: Result<Request, CommandError>,
    ) -> bool {
        match json_of_text(self.key@) {
            Some(key) => r matches Ok(request) && is_post(
                request,
                client,
                self.path_text(),
                table_body_value(self.key_type@, self.value_type@, key),
            ),
            None => r matches Err(
                CommandError::InvalidJson { input: JsonInput::TableKey, literal, .. },
            ) && literal == self.key,
        }
    }

    /// The request that the command stands for: none where the key is
    /// not JSON.
    pub fn request(&self, client: &AptosClient) -> (r: Result<Request, CommandError>)
        ensures
            self.answered_by(*client, r),
    {
        let mut path = String::from_str("/tables/");
        path.append(self.table_handle.as_str());
        path.append("/item");
        match Json::parse(self.key.as_str()) {
            Ok(key) => {
                let body = table_body(self.key_type.clone(), self.value_type.clone(), key);
                Ok(client.post_json(path.as_str(), body))
            },
            Err(detail) => Err(
                CommandError::InvalidJson {
                    input: JsonInput::TableKey,
                    literal: self.key.clone(),
                    detail,
                },
            ),
        }
    }
}

/// The documents that `items` hold, in order.
pub open spec fn values_of(items: Seq<Json>) -> Seq<JsonValue> {
    Seq::new(items.len(), |i: int| items[i]@)
}

/// The texts that `items` hold, in order.
pub open spec fn texts_of(items: Seq<String>) -> Seq<Seq<char>> {
    Seq::new(items.len(), |i: int| items[i]@)
}

/// The payload that calls a view function.
pub open spec fn view_body_value(
    function: Seq<char>,
    type_args: Seq<Seq<char>>,
    arguments: Seq<JsonValue>,
) -> JsonValue {
    JsonValue::Object(
        seq![
            (JsonMember { name: "function"@, value: JsonValue::String(function) }),
            (JsonMember {
                name: "type_arguments"@,
                value: JsonValue::Array(
                    Seq::new(type_args.len(), |i: int| JsonValue::String(type_args[i])),
                ),
            }),
            (JsonMember { name: "arguments"@, value: JsonValue::Array(arguments) }),
        ],
    )
}

/// The payload that calls `function` with these type arguments and
/// arguments.
pub fn view_body(function: String, type_args: &Vec<String>, arguments: Vec<Json>) -> (r: Json)
    ensures
        r@ == view_body_value(function@, texts_of(type_args@), values_of(arguments@)),
{
    let mut types: Vec<Json> = Vec::new();
    let mut i: usize = 0;
    while i < type_args.len()
        invariant
            i <= type_args.len(),
            types.len() == i,
            forall|k: int| 0 <= k < i ==> (#[trigger] types[k])@ == JsonValue::String(type_args[k]@),
        decreases type_args.len() - i,
    {
        types.push(Json::String(type_args[i].clone()));
        i = i + 1;
    }
    let types_json = Json::Array(types);
    let arguments_json = Json::Array(arguments);
    assert(types_json@->Array_0 =~= Seq::new(
        texts_of(type_args@).len(),
        |i: int| JsonValue::String(texts_of(type_args@)[i]),
    ));
    assert(arguments_json@->Array_0 =~= values_of(arguments@));
    let function_json = Json::String(function);
    assert(function_json@ == JsonValue::String(function@));
    let mut members: Vec<(String, Json)> = Vec::new();
    members.push((String::from_str("function"), function_json));
    members.push((String::from_str("type_arguments"), types_json));
    members.push((String::from_str("arguments"), arguments_json));
    let r = Json::Object(members);
    assert(r@->Object_0 =~= view_body_value(
        function@,
        texts_of(type_args@),
        values_of(arguments@),
    )->Object_0);
    r
}

/// The arguments of a view call are found in its payload under
/// `arguments`, as an array in the order given.
pub proof fn lemma_view_body_holds_arguments(
    function: Seq<char>,
    type_args: Seq<Seq<char>>,
    arguments: Seq<JsonValue>,
)
    ensures
        view_body_value(function, type_args, arguments).member_or_null("arguments"@)
            == JsonValue::Array(arguments),
{
}

/// The place of the first of `texts` that is not JSON, if any.
pub open spec fn first_invalid(texts: Seq<Seq<char>>) -> Option<int>
    decreases texts.len(),
{
    if texts.len() == 0 {
        None
    } else {
        match first_invalid(texts.drop_last()) {
            Some(k) => Some(k),
            None => if json_of_text(texts.last()).is_none() {
                Some(texts.len() - 1)
            } else {
                None
            },
        }
    }
}

/// The documents that `texts` denote, each read by itself.
pub open spec fn parsed_all(texts: Seq<Seq<char>>) -> Seq<JsonValue> {
    Seq::new(texts.len(), |i: int| json_of_text(texts[i]).unwrap())
}

/// Reads each of `args` by itself as JSON: the documents in order, or an
/// error for the first that is not JSON.
pub fn parse_arguments(args: &Vec<String>) -> (r: Result<Vec<Json>, CommandError>)
    ensures
        match first_invalid(texts_of(args@)) {
            None => r matches Ok(parsed) && values_of(parsed@) == parsed_all(texts_of(args@)),
            Some(k) => r matches Err(
                CommandError::InvalidJson { input: JsonInput::ViewArgument, literal, .. },
            ) && 0 <= k < args.len() && literal@ == args[k]@,
        },
{
    let ghost texts = texts_of(args@);
    let mut parsed: Vec<Json> = Vec::new();
    let mut i: usize = 0;
    while i < args.len()
        invariant
            i <= args.len(),
            parsed.len() == i,
            texts == texts_of(args@),
            first_invalid(texts.subrange(0, i as int)).is_none(),
            forall|k: int|
                0 <= k < i ==> json_of_text(texts[k]) == Some((#[trigger] parsed[k])@),
        decreases args.len() - i,
    {
        proof {
            let upto = texts.subrange(0, i + 1);
            assert(upto.drop_last() =~= texts.subrange(0, i as int));
            assert(upto.last() == args[i as int]@);
        }
        match Json::parse(args[i].as_str()) {
            Ok(document) => {
                parsed.push(document);
            },
            Err(detail) => {
                proof {
                    lemma_first_invalid_stays(texts, i + 1);
                }
                return Err(
                    CommandError::InvalidJson {
                        input: JsonInput::ViewArgument,
                        literal: args[i].clone(),
                        detail,
                    },
                );
            },
        }
        i = i + 1;
    }
    assert(texts.subrange(0, i as int) =~= texts);
    assert(values_of(parsed@) =~= parsed_all(texts));
    Ok(parsed)
}

/// The first text that is not JSON among the first `n` is the first
/// among all.
pub proof fn lemma_first_invalid_stays(texts: Seq<Seq<char>>, n: int)
    requires
        0 <= n <= texts.len(),
        first_invalid(texts.subrange(0, n)).is_some(),
    ensures
        first_invalid(texts) == first_invalid(texts.subrange(0, n)),
    decreases texts.len() - n,
{
    if n == texts.len() {
        assert(texts.subrange(0, n) =~= texts);
    } else {
        assert(texts.drop_last().subrange(0, n) =~= texts.subrange(0, n));
        lemma_first_invalid_stays(texts.drop_last(), n);
    }
}

impl ViewCommand {
    /// Whether `r` is what the command stands for at `client`: the POST
    /// request with every argument as a document, or, where one is not
    /// JSON, the error that holds the first such as given.
    pub open spec fn answered_by(
        self,
        client: AptosClient,
        r: Result<Request, CommandError>,
    ) -> bool {
        match first_invalid(texts_of(self.args@)) {
            None => r matches Ok(request) && is_post(
                request,
                client,
                "/view"@,
                view_body_value(
                    self.function@,
                    texts_of(self.type_args@),
                    parsed_all(texts_of(self.args@)),
                ),
            ),
            Some(k) => r matches Err(
                CommandError::InvalidJson { input: JsonInput::ViewArgument, literal, .. },
            ) && 0 <= k < self.args.len() && literal@ == self.args[k]@,
        }
    }

    /// The request that the command stands for: none where an argument
    /// is not JSON.
    pub fn request(&self, client: &AptosClient) -> (r: Result<Request, CommandError>)
        ensures
            self.answered_by(*client, r),
    {
        match parse_arguments(&self.args) {
            Ok(arguments) => {
                let body = view_body(self.function.clone(), &self.type_args, arguments);
                Ok(client.post_json("/view", body))
            },
            Err(e) => Err(e),
        }
    }
}

/// The path of one transaction: by version where the text is the numeral
/// of an unsigned 64-bit number, by hash otherwise.
pub open spec fn transaction_path(version_or_hash: Seq<char>) -> Seq<char> {
    if is_u64_literal(version_or_hash) {
        "/transactions/by_version/"@ + version_or_hash
    } else {
        "/transactions/by_hash/"@ + version_or_hash
    }
}

/// A version written in decimal is looked up by version.
pub proof fn lemma_version_is_looked_up_by_version(version: u64)
    ensures
        transaction_path(decimal(version as nat)) == "/transactions/by_version/"@ + decimal(
            version as nat,
        ),
{
    lemma_decimal_is_u64_literal(version);
}

/// What does not begin with a digit or `+` is looked up by hash.
pub proof fn lemma_other_text_is_looked_up_by_hash(text: Seq<char>)
    requires
        text.len() > 0,
        !is_digit(text[0]),
        text[0] != '+',
    ensures
        transaction_path(text) == "/transactions/by_hash/"@ + text,
{
}

impl TxCommand {
    /// Whether `r` is what the command stands for at `client`: a list, a
    /// submission or a lookup; an error where the command names neither
    /// a subcommand nor a transaction, or where what is to be submitted
    /// is not JSON. A subcommand goes before a transaction.
    pub open spec fn answered_by(
        self,
        client: AptosClient,
        r: Result<Request, CommandError>,
    ) -> bool {
        match (self.command, self.version_or_hash) {
            (Some(TxSubcommand::List { limit, start }), _) => r matches Ok(request) && is_get(
                request,
                client,
                page_query("/transactions"@, limit, start),
            ),
            (Some(TxSubcommand::Submit { document }), _) => match json_of_text(document@) {
                Some(transaction) => r matches Ok(request) && is_post(
                    request,
                    client,
                    "/transactions"@,
                    transaction,
                ),
                None => r matches Err(
                    CommandError::InvalidJson { input: JsonInput::SignedTransaction, literal, .. },
                ) && literal == document,
            },
            (None, Some(version_or_hash)) => r matches Ok(request) && is_get(
                request,
                client,
                transaction_path(version_or_hash@),
            ),
            (None, None) => r matches Err(CommandError::MissingTransaction),
        }
    }

    /// The request that the command stands for.
    pub fn request(&self, client: &AptosClient) -> (r: Result<Request, CommandError>)
        ensures
            self.answered_by(*client, r),
    {
        match &self.command {
            Some(TxSubcommand::List { limit, start }) => {
                let mut path = String::from_str("/transactions");
                push_page_query(&mut path, *limit, *start);
                Ok(client.get_json(path.as_str()))
            },
            Some(TxSubcommand::Submit { document }) => match Json::parse(document.as_str()) {
                Ok(transaction) => Ok(client.post_json("/transactions", transaction)),
                Err(detail) => Err(
                    CommandError::InvalidJson {
                        input: JsonInput::SignedTransaction,
                        literal: document.clone(),
                        detail,
                    },
                ),
            },
            None => match &self.version_or_hash {
                Some(version_or_hash) => {
                    let mut path = if parses_as_u64(version_or_hash.as_str()) {
                        String::from_str("/transactions/by_version/")
                    } else {
                        String::from_str("/transactions/by_hash/")
                    };
                    path.append(version_or_hash.as_str());
                    Ok(client.get_json(path.as_str()))
                },
                None => Err(CommandError::MissingTransaction),
            },
        }
    }
}

/// A command of the tool that asks the node for something.
#[derive(Clone, Debug, PartialEq, Eq)]
pub enum Command {
    Node(NodeCommand),
    Account(AccountCommand),
    Block(BlockCommand),
    Events(EventsCommand),
    TableItem(TableItemArgs),
    View(ViewCommand),
    Tx(TxCommand),
}

impl Command {
    /// Whether `r` is what the command stands for at `client`: its one
    /// request, or the reason why there is none.
    pub open spec fn answered_by(
        self,
        client: AptosClient,
        r: Result<Request, CommandError>,
    ) -> bool {
        match self {
            Command::Node(c) => r matches Ok(request) && is_get(request, client, c.path_text()),
            Command::Account(c) => c.answered_by(client, r),
            Command::Block(c) => c.answered_by(client, r),
            Command::Events(c) => r matches Ok(request) && is_get(request, client, c.path_text()),
            Command::TableItem(c) => c.answered_by(client, r),
            Command::View(c) => c.answered_by(client, r),
            Command::Tx(c) => c.answered_by(client, r),
        }
    }

    /// What is shown of the node's answer: the whole of it, but for a
    /// module of which one member was asked for.
    pub open spec fn shown(self, response: JsonValue) -> JsonValue {
        match self {
            Command::Account(c) => c.shown(response),
            _ => response,
        }
    }

    /// The one request that the command stands for, or the reason why
    /// there is none.
    pub fn request(&self, client: &AptosClient) -> (r: Result<Request, CommandError>)
        ensures
            self.answered_by(*client, r),
    {
        match self {
            Command::Node(c) => Ok(c.request(client)),
            Command::Account(c) => c.request(client),
            Command::Block(c) => c.request(client),
            Command::Events(c) => Ok(c.request(client)),
            Command::TableItem(c) => c.request(client),
            Command::View(c) => c.request(client),
            Command::Tx(c) => c.request(client),
        }
    }

    /// What is shown of the node's answer.
    pub fn output(&self, response: Json) -> (r: Json)
        ensures
            r@ == self.shown(response@),
    {
        match self {
            Command::Account(c) => c.output(response),
            _ => response,
        }
    }
}

} // verus!
