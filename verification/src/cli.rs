//! The command surface as data: the parsed command line, which service each
//! subcommand talks to, and the small decisions the dispatcher makes around
//! the requests (log verbosity, `config unset` outcome).

use vstd::prelude::*;

use crate::api::market_detectors::{self, Params};
use crate::api::{
    broker_distribution, emitten, info, keystats, orderbook, profile, request_view, shareholders,
    trade_book, ApiRequest,
};
use crate::error::Error;

verus! {

/// The parsed command line.
#[derive(Debug, Clone, PartialEq, Eq)]
pub struct Cli {
    /// Bearer token (else `$STOCKBIT_BEARER_TOKEN` or the stored file).
    pub token: Option<String>,
    /// Override of the Stockbit API base URL.
    pub base_url: Option<String>,
    /// Optional extra cookie for `idx-*` commands.
    pub idx_cookie: Option<String>,
    /// Pretty-print JSON output.
    pub pretty: bool,
    /// Verbosity: 1 info, 2 debug, 3 or more trace.
    pub verbose: u8,
    pub command: Command,
}

/// The subcommands.
#[derive(Debug, Clone, PartialEq, Eq)]
pub enum Command {
    /// Key statistics ratios (PER, PBV, EPS, …) for a symbol.
    Keystats { symbol: String, year_limit: u32 },
    /// Short company info: name, sector, last close.
    Info { symbol: String },
    /// Long-form company profile.
    Profile { symbol: String },
    /// Combined info + profile in one payload.
    Emitten { symbol: String },
    /// Market detectors (foreign-flow / accumulation) for one symbol and date range.
    MarketDetectors {
        symbol: String,
        from: Option<String>,
        to: Option<String>,
        limit: u32,
        transaction_type: String,
        market_board: String,
        investor_type: String,
    },
    /// Live orderbook snapshot for a symbol.
    Orderbook { symbol: String },
    /// Broker distribution for a symbol on a given date.
    BrokerDistribution { symbol: String, date: String },
    /// Time/price-grouped trade book for a symbol on a date.
    TradeBook { symbol: String, date: String, group_by: String, time_interval: String },
    /// Shareholder composition snapshots across reporting periods.
    Shareholders { symbol: String },
    /// Yahoo Finance daily OHLCV.
    YfDaily { symbol: String, from: Option<String>, to: Option<String>, range: String },
    /// Yahoo Finance latest quote snapshot.
    YfQuote { symbol: String },
    /// Yahoo Finance fundamentals & profile.
    YfSummary { symbol: String },
    /// Yahoo Finance analyst data.
    YfAnalyst { symbol: String },
    /// IDX daily stock summary.
    IdxStockSummary { date: Option<String> },
    /// IDX daily broker summary.
    IdxBrokerSummary { date: Option<String> },
    /// Manage the on-disk config.
    Config { action: ConfigAction },
}

/// `config` subcommands.
#[derive(Debug, Clone, PartialEq, Eq)]
pub enum ConfigAction {
    /// Print the stored config (token shown as `<set>`/`<unset>`).
    Show,
    /// Print the on-disk config path.
    Path,
    /// Set a config value. Keys: `token`, `base-url`.
    SetValue { key: String, value: String },
    /// Remove a stored config value.
    Unset { key: String },
}

/// The service a command talks to.
#[derive(Debug, Clone, Copy, PartialEq, Eq, Structural)]
pub enum Service {
    /// Only the local settings file; never authenticates.
    LocalConfig,
    /// Yahoo Finance; needs no Stockbit token.
    Yahoo,
    /// IDX; needs no Stockbit token.
    Idx,
    /// The authenticated Stockbit API.
    Stockbit,
}

/// Yahoo commands.
pub open spec fn is_yahoo_command(c: Command) -> bool {
    c is YfDaily || c is YfQuote || c is YfSummary || c is YfAnalyst
}

/// IDX commands.
pub open spec fn is_idx_command(c: Command) -> bool {
    c is IdxStockSummary || c is IdxBrokerSummary
}

/// The service of a command: `config` is local, `yf-*` Yahoo, `idx-*` IDX,
/// everything else Stockbit.
pub open spec fn service_of(c: Command) -> Service {
    if c is Config {
        Service::LocalConfig
    } else if is_yahoo_command(c) {
        Service::Yahoo
    } else if is_idx_command(c) {
        Service::Idx
    } else {
        Service::Stockbit
    }
}

impl Command {
    /// Yahoo commands hit a different service and need no Stockbit token.
    pub fn is_yahoo(&self) -> (res: bool)
        ensures
            res == is_yahoo_command(*self),
            res <==> (*self is YfDaily || *self is YfQuote || *self is YfSummary
                || *self is YfAnalyst),
    {
        match self {
            Command::YfDaily { .. } | Command::YfQuote { .. } | Command::YfSummary { .. }
            | Command::YfAnalyst { .. } => true,
            _ => false,
        }
    }

    /// IDX commands need a cookie, not a Stockbit token.
    pub fn is_idx(&self) -> (res: bool)
        ensures
            res == is_idx_command(*self),
            res <==> (*self is IdxStockSummary || *self is IdxBrokerSummary),
    {
        match self {
            Command::IdxStockSummary { .. } | Command::IdxBrokerSummary { .. } => true,
            _ => false,
        }
    }

    /// Which service the command talks to.
    pub fn service(&self) -> (res: Service)
        ensures
            res == service_of(*self),
            is_stockbit_endpoint(*self) ==> res == Service::Stockbit,
            (*self is YfDaily || *self is YfQuote || *self is YfSummary || *self is YfAnalyst)
                ==> res == Service::Yahoo,
            (*self is IdxStockSummary || *self is IdxBrokerSummary) ==> res == Service::Idx,
            *self is Config ==> res == Service::LocalConfig,
    {
        if let Command::Config { .. } = self {
            Service::LocalConfig
        } else if self.is_yahoo() {
            Service::Yahoo
        } else if self.is_idx() {
            Service::Idx
        } else {
            Service::Stockbit
        }
    }
}

/// The Stockbit endpoint commands: those answered by the authenticated
/// Stockbit API.
pub open spec fn is_stockbit_endpoint(c: Command) -> bool {
    ||| c is Keystats
    ||| c is Info
    ||| c is Profile
    ||| c is Emitten
    ||| c is MarketDetectors
    ||| c is Orderbook
    ||| c is BrokerDistribution
    ||| c is TradeBook
    ||| c is Shareholders
}

/// Each command goes to the service of its family: the Stockbit endpoint
/// commands to Stockbit, the `yf-*` commands to Yahoo, the `idx-*` commands
/// to IDX, and `config` stays local. The IDX family is exactly the two
/// `idx-*` commands and the Yahoo family exactly the four `yf-*` commands.
pub proof fn lemma_service_by_family(c: Command)
    ensures
        is_stockbit_endpoint(c) ==> service_of(c) == Service::Stockbit,
        (c is YfDaily || c is YfQuote || c is YfSummary || c is YfAnalyst) ==> service_of(c)
            == Service::Yahoo,
        (c is IdxStockSummary || c is IdxBrokerSummary) ==> service_of(c) == Service::Idx,
        c is Config ==> service_of(c) == Service::LocalConfig,
        is_idx_command(c) <==> (c is IdxStockSummary || c is IdxBrokerSummary),
        is_yahoo_command(c) <==> (c is YfDaily || c is YfQuote || c is YfSummary || c is YfAnalyst),
{
}

/// Only Stockbit commands need a token: `config`, Yahoo and IDX commands never
/// resolve one.
pub proof fn lemma_token_only_for_stockbit(c: Command)
    ensures
        (service_of(c) == Service::Stockbit) == !(c is Config || is_yahoo_command(c)
            || is_idx_command(c)),
{
}

/// The flag values a command line hands to configuration resolution: the
/// token and base-URL flags for a Stockbit command; nothing for `config`,
/// Yahoo and IDX commands, which never resolve a token.
pub open spec fn credentials_of(cli: Cli) -> Option<(Option<String>, Option<String>)> {
    if service_of(cli.command) == Service::Stockbit {
        Some((cli.token, cli.base_url))
    } else {
        None
    }
}

impl Cli {
    /// The flag values to resolve the Stockbit configuration from, for a
    /// Stockbit command; `None` for the commands that need no token.
    pub fn credentials(&self) -> (res: Option<(Option<String>, Option<String>)>)
        ensures
            res == credentials_of(*self),
    {
        if self.command.service() == Service::Stockbit {
            Some((self.token.clone(), self.base_url.clone()))
        } else {
            None
        }
    }
}

/// A `config`, Yahoo or IDX command line reads no token: two command lines
/// that differ only in their token flag take the same service and hand
/// nothing to configuration resolution, so neither the flag nor the
/// environment's token reaches what they do.
pub proof fn lemma_outcome_ignores_token(a: Cli, b: Cli)
    requires
        a.command == b.command,
        a.base_url == b.base_url,
        a.idx_cookie == b.idx_cookie,
        a.pretty == b.pretty,
        a.verbose == b.verbose,
        service_of(a.command) != (Service::Stockbit),
    ensures
        service_of(a.command) == service_of(b.command),
        (credentials_of(a) is None),
        credentials_of(a) == credentials_of(b),
        (Cli { token: None, ..a }) == (Cli { token: None, ..b }),
{
}

/// What a Stockbit command sends and how its answer becomes the output.
#[derive(Debug, Clone, PartialEq, Eq)]
pub enum StockbitCall {
    /// One request; its payload is the output.
    Single(ApiRequest),
    /// Info and profile, sent together and merged as `{"info", "profile"}`.
    InfoAndProfile(ApiRequest, ApiRequest),
    /// The shareholder composition; an upstream 404 becomes an explanatory
    /// `{"data": null, "_note": ..}` payload.
    Composition(ApiRequest),
}

/// `res` is a single request matching `expected`, or the date error it names.
pub open spec fn single_outcome_is(
    res: Result<StockbitCall, Error>,
    expected: Result<(Seq<char>, Seq<(Seq<char>, Seq<char>)>), Seq<char>>,
) -> bool {
    match expected {
        Ok(v) => res matches Ok(StockbitCall::Single(r)) && request_view(r) == v,
        Err(input) => res matches Err(Error::InvalidDate { input: i }) && i@ == input,
    }
}

/// The call a Stockbit command makes, endpoint by endpoint.
pub open spec fn call_is(res: Result<StockbitCall, Error>, c: Command) -> bool {
    match c {
        Command::Keystats { symbol, year_limit } => single_outcome_is(
            res,
            Ok(keystats::request_spec(symbol@, year_limit)),
        ),
        Command::Info { symbol } => single_outcome_is(res, Ok(info::request_spec(symbol@))),
        Command::Profile { symbol } => single_outcome_is(res, Ok(profile::request_spec(symbol@))),
        Command::Emitten { symbol } => res matches Ok(StockbitCall::InfoAndProfile(a, b))
            && request_view(a) == info::request_spec(symbol@) && request_view(b)
            == profile::request_spec(symbol@),
        Command::MarketDetectors {
            symbol,
            from,
            to,
            limit,
            transaction_type,
            market_board,
            investor_type,
        } => single_outcome_is(
            res,
            market_detectors::request_spec(
                symbol@,
                transaction_type@,
                market_board@,
                investor_type@,
                limit,
                match from {
                    Some(f) => Some(f@),
                    None => None,
                },
                match to {
                    Some(t) => Some(t@),
                    None => None,
                },
            ),
        ),
        Command::Orderbook { symbol } => single_outcome_is(res, Ok(orderbook::request_spec(symbol@))),
        Command::BrokerDistribution { symbol, date } => single_outcome_is(
            res,
            broker_distribution::request_spec(symbol@, date@),
        ),
        Command::TradeBook { symbol, date, group_by, time_interval } => single_outcome_is(
            res,
            trade_book::request_spec(symbol@, date@, group_by@, time_interval@),
        ),
        Command::Shareholders { symbol } => res matches Ok(StockbitCall::Composition(r))
            && request_view(r) == shareholders::request_spec(symbol@),
        _ => false,
    }
}

/// An optional owned string, borrowed.
fn opt_str(o: &Option<String>) -> (res: Option<&str>)
    ensures
        market_detectors::opt_view(res) == match o {
            Some(s) => Some(s@),
            None => None,
        },
{
    match o {
        Some(s) => Some(s.as_str()),
        None => None,
    }
}

impl Command {
    /// The call a Stockbit command makes: which request(s), and how the
    /// answer is shaped. Date arguments are validated here, before anything
    /// is sent.
    pub fn stockbit_call(&self) -> (res: Result<StockbitCall, Error>)
        requires
            service_of(*self) == Service::Stockbit,
        ensures
            call_is(res, *self),
    {
        match self {
            Command::Keystats { symbol, year_limit } => Ok(
                StockbitCall::Single(keystats::request(symbol.as_str(), *year_limit)),
            ),
            Command::Info { symbol } => Ok(StockbitCall::Single(info::request(symbol.as_str()))),
            Command::Profile { symbol } => Ok(
                StockbitCall::Single(profile::request(symbol.as_str())),
            ),
            Command::Emitten { symbol } => {
                let (a, b) = emitten::requests(symbol.as_str());
                Ok(StockbitCall::InfoAndProfile(a, b))
            },
            Command::MarketDetectors {
                symbol,
                from,
                to,
                limit,
                transaction_type,
                market_board,
                investor_type,
            } => {
                let params = Params {
                    transaction_type: transaction_type.as_str(),
                    market_board: market_board.as_str(),
                    investor_type: investor_type.as_str(),
                    limit: *limit,
                    from: opt_str(from),
                    to: opt_str(to),
                };
                let r = market_detectors::request(symbol.as_str(), &params)?;
                Ok(StockbitCall::Single(r))
            },
            Command::Orderbook { symbol } => Ok(
                StockbitCall::Single(orderbook::request(symbol.as_str())),
            ),
            Command::BrokerDistribution { symbol, date } => {
                let r = broker_distribution::request(symbol.as_str(), date.as_str())?;
                Ok(StockbitCall::Single(r))
            },
            Command::TradeBook { symbol, date, group_by, time_interval } => {
                let r = trade_book::request(
                    symbol.as_str(),
                    date.as_str(),
                    group_by.as_str(),
                    time_interval.as_str(),
                )?;
                Ok(StockbitCall::Single(r))
            },
            Command::Shareholders { symbol } => Ok(
                StockbitCall::Composition(shareholders::request(symbol.as_str())),
            ),
            _ => {
                assert(false);
                Err(Error::MissingToken)
            },
        }
    }
}

/// The default log filter for `verbosity`: warn, info, debug, then trace.
pub open spec fn log_level_spec(verbosity: u8) -> Seq<char> {
    if verbosity == 0 {
        "warn"@
    } else if verbosity == 1 {
        "info"@
    } else if verbosity == 2 {
        "debug"@
    } else {
        "trace"@
    }
}

/// The default log filter for `verbosity`.
pub fn default_log_level(verbosity: u8) -> (res: &'static str)
    ensures
        res@ == log_level_spec(verbosity),
{
    if verbosity == 0 {
        "warn"
    } else if verbosity == 1 {
        "info"
    } else if verbosity == 2 {
        "debug"
    } else {
        "trace"
    }
}

/// Whether `RUST_LOG` is consulted: only when no `-v` flag was given, so an
/// explicit verbosity always wins.
pub fn consults_env_filter(verbosity: u8) -> (res: bool)
    ensures
        res == (verbosity == 0),
{
    verbosity == 0
}

/// What `config unset` reports: `ok` when a value was removed, else that the
/// key was not set.
pub fn unset_outcome(removed: bool) -> (res: &'static str)
    ensures
        res@ == (if removed { "ok"@ } else { "no-op: key not set"@ }),
{
    if removed {
        "ok"
    } else {
        "no-op: key not set"
    }
}

} // verus!
