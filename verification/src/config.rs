//! Application configuration: defaults, validation, environment overrides
//! and run-time settings.

use vstd::prelude::*;
use vstd::string::*;
use crate::market::MarketType;
use crate::fixed::{parse_u64, parse_u32, parse_usize, parse_bool, uint_value};
use crate::text::{strings_view, unicode_upper, to_uppercase, chars_of, trim, trim_chars, is_blank, split_chars, split_on, string_from_chars,
    to_ascii_lower, lower_seq, str_eq, upper_seq};

verus! {

/// Perpetual-futures endpoints.
#[derive(Debug, Clone)]
pub struct PerpUsdtConfig {
    pub ws_url: String,
    pub rest_url: String,
}

/// Exchange connection settings.
#[derive(Debug, Clone)]
pub struct BinanceConfig {
    /// WebSocket base URL
    pub ws_url: String,
    /// REST API base URL
    pub rest_url: String,
    /// Request timeout in seconds
    pub timeout_seconds: u64,
    /// Reconnect interval in milliseconds
    pub reconnect_interval_ms: u64,
    /// Maximum reconnection attempts
    pub max_reconnect_attempts: u32,
    /// Perpetual-futures endpoints, when they differ from the built-in ones
    pub perp_usdt: Option<PerpUsdtConfig>,
}

/// Terminal UI settings.
#[derive(Debug, Clone)]
pub struct UiConfig {
    pub enable_colors: bool,
    pub update_rate_fps: u32,
    pub sparkline_points: usize,
    /// Minimum seconds between kline redraws from streaming updates
    pub kline_refresh_secs: u64,
}

/// File logging settings.
#[derive(Debug, Clone)]
pub struct LogConfig {
    pub file_path: String,
}

/// One `[[markets]]` entry: an exchange segment, its symbols and streams.
#[derive(Debug, Clone)]
pub struct MarketConfig {
    pub exchange: String,
    pub market_type: MarketType,
    pub symbols: Vec<String>,
    pub streams: Vec<String>,
}

/// Application configuration.
#[derive(Debug, Clone)]
pub struct Config {
    pub symbols: Vec<String>,
    pub refresh_rate_ms: u64,
    pub orderbook_depth: usize,
    pub enable_sparkline: bool,
    pub log_level: String,
    pub log: LogConfig,
    pub binance: BinanceConfig,
    pub ui: UiConfig,
    pub markets: Vec<MarketConfig>,
}

impl Default for BinanceConfig {
    fn default() -> (r: Self)
        ensures
            r.ws_url@ == "wss://stream.binance.com:9443"@,
            r.rest_url@ == "https://api.binance.com"@,
            r.timeout_seconds == 10,
            r.reconnect_interval_ms == 1000,
            r.max_reconnect_attempts == 10,
            r.perp_usdt is None,
    {
        BinanceConfig {
            ws_url: String::from_str("wss://stream.binance.com:9443"),
            rest_url: String::from_str("https://api.binance.com"),
            timeout_seconds: 10,
            reconnect_interval_ms: 1000,
            max_reconnect_attempts: 10,
            perp_usdt: None,
        }
    }
}

impl Default for UiConfig {
    fn default() -> (r: Self)
        ensures
            r.enable_colors,
            r.update_rate_fps == 20,
            r.sparkline_points == 60,
            r.kline_refresh_secs == 60,
    {
        UiConfig { enable_colors: true, update_rate_fps: 20, sparkline_points: 60, kline_refresh_secs: 60 }
    }
}

impl Default for LogConfig {
    fn default() -> (r: Self)
        ensures
            r.file_path@ == "logs/xtrade.log"@,
    {
        LogConfig { file_path: String::from_str("logs/xtrade.log") }
    }
}

/// The default configuration's values.
pub open spec fn is_default_config(c: Config) -> bool {
    &&& strings_view(c.symbols@) == seq!["BTCUSDT"@]
    &&& c.refresh_rate_ms == 100
    &&& c.orderbook_depth == 20
    &&& c.enable_sparkline
    &&& c.log_level@ == "info"@
    &&& c.log.file_path@ == "logs/xtrade.log"@
    &&& c.binance.ws_url@ == "wss://stream.binance.com:9443"@
    &&& c.binance.rest_url@ == "https://api.binance.com"@
    &&& c.binance.timeout_seconds == 10
    &&& c.binance.reconnect_interval_ms == 1000
    &&& c.binance.max_reconnect_attempts == 10
    &&& c.binance.perp_usdt is None
    &&& c.ui.enable_colors
    &&& c.ui.update_rate_fps == 20
    &&& c.ui.sparkline_points == 60
    &&& c.ui.kline_refresh_secs == 60
    &&& c.markets@.len() == 0
}

impl Default for Config {
    fn default() -> (r: Self)
        ensures
            is_default_config(r),
    {
        let mut symbols: Vec<String> = Vec::new();
        symbols.push(String::from_str("BTCUSDT"));
        let c = Config {
            symbols,
            refresh_rate_ms: 100,
            orderbook_depth: 20,
            enable_sparkline: true,
            log_level: String::from_str("info"),
            log: LogConfig::default(),
            binance: BinanceConfig::default(),
            ui: UiConfig::default(),
            markets: Vec::new(),
        };
        assert(strings_view(c.symbols@) =~= seq!["BTCUSDT"@]);
        c
    }
}

/// Bytes a character takes in UTF-8.
pub open spec fn char_utf8_len(c: char) -> int {
    if (c as u32) < 0x80 {
        1
    } else if (c as u32) < 0x800 {
        2
    } else if (c as u32) < 0x10000 {
        3
    } else {
        4
    }
}

/// Bytes a text takes in UTF-8 (`str::len`).
pub open spec fn utf8_len(s: Seq<char>) -> int
    decreases s.len(),
{
    if s.len() == 0 {
        0
    } else {
        utf8_len(s.drop_last()) + char_utf8_len(s.last())
    }
}

proof fn lemma_utf8_len_grows(s: Seq<char>)
    ensures
        utf8_len(s) >= s.len(),
    decreases s.len(),
{
    if s.len() > 0 {
        lemma_utf8_len_grows(s.drop_last());
    }
}

/// Whether a symbol is shorter than three bytes (the empty one included).
fn symbol_too_short(s: &str) -> (r: bool)
    ensures
        r == (s@.len() == 0 || utf8_len(s@) < 3),
{
    let cs = chars_of(s);
    let mut n: u64 = 0;
    let mut i: usize = 0;
    while i < cs.len() && n < 3
        invariant
            i <= cs.len(),
            cs@ == s@,
            n == utf8_len(cs@.subrange(0, i as int)),
        decreases cs.len() - i,
    {
        let c = cs[i];
        let w: u64 = if (c as u32) < 0x80 {
            1
        } else if (c as u32) < 0x800 {
            2
        } else if (c as u32) < 0x10000 {
            3
        } else {
            4
        };
        proof {
            assert(cs@.subrange(0, i + 1).drop_last() =~= cs@.subrange(0, i as int));
        }
        n = n + w;
        i = i + 1;
    }
    proof {
        if n >= 3 && i < cs.len() {
            lemma_utf8_len_prefix(cs@, i as int);
        }
        if i == cs.len() {
            assert(cs@.subrange(0, i as int) =~= cs@);
        }
    }
    cs.len() == 0 || n < 3
}

proof fn lemma_utf8_len_prefix(s: Seq<char>, i: int)
    requires
        0 <= i <= s.len(),
    ensures
        utf8_len(s.subrange(0, i)) <= utf8_len(s),
    decreases s.len() - i,
{
    if i < s.len() {
        lemma_utf8_len_prefix(s, i + 1);
        assert(s.subrange(0, i + 1).drop_last() =~= s.subrange(0, i));
    } else {
        assert(s.subrange(0, i) =~= s);
    }
}

/// Why a configuration is refused.
#[derive(Debug, Clone)]
pub enum ConfigError {
    NoSymbols,
    ZeroRefreshRate,
    ZeroOrderbookDepth,
    ZeroTimeout,
    EmptyLogPath,
    ZeroKlineRefresh,
    InvalidSymbol(String),
}

/// Index of the first symbol shorter than three bytes.
pub open spec fn first_short_symbol(s: Seq<Seq<char>>) -> Option<int>
    decreases s.len(),
{
    if s.len() == 0 {
        None
    } else if s[0].len() == 0 || utf8_len(s[0]) < 3 {
        Some(0)
    } else {
        match first_short_symbol(s.drop_first()) {
            Some(i) => Some(i + 1),
            None => None,
        }
    }
}

proof fn lemma_first_short_symbol_range(s: Seq<Seq<char>>)
    ensures
        first_short_symbol(s) matches Some(i) ==> 0 <= i < s.len(),
    decreases s.len(),
{
    if s.len() > 0 {
        lemma_first_short_symbol_range(s.drop_first());
    }
}

/// What `validate` reports: the first failed check, in this order.
pub open spec fn validation_result(c: Config, r: Result<(), ConfigError>) -> bool {
    if c.symbols@.len() == 0 {
        r matches Err(ConfigError::NoSymbols)
    } else if c.refresh_rate_ms == 0 {
        r matches Err(ConfigError::ZeroRefreshRate)
    } else if c.orderbook_depth == 0 {
        r matches Err(ConfigError::ZeroOrderbookDepth)
    } else if c.binance.timeout_seconds == 0 {
        r matches Err(ConfigError::ZeroTimeout)
    } else if trim(c.log.file_path@).len() == 0 {
        r matches Err(ConfigError::EmptyLogPath)
    } else if c.ui.kline_refresh_secs == 0 {
        r matches Err(ConfigError::ZeroKlineRefresh)
    } else {
        match first_short_symbol(strings_view(c.symbols@)) {
            Some(i) => r matches Err(ConfigError::InvalidSymbol(s)) && s@ == c.symbols@[i]@,
            None => r is Ok,
        }
    }
}

/// Validity as one equivalence: a configuration is valid exactly when it
/// names a symbol, its refresh rate, depth, timeout and kline refresh are
/// positive, its log path is not blank, and every symbol is at least three
/// bytes long.
pub proof fn lemma_valid_iff(c: Config)
    ensures
        validation_result(c, Ok(())) <==> (c.symbols@.len() > 0 && c.refresh_rate_ms > 0 && c.orderbook_depth > 0
            && c.binance.timeout_seconds > 0 && trim(c.log.file_path@).len() > 0 && c.ui.kline_refresh_secs > 0
            && first_short_symbol(strings_view(c.symbols@)) is None),
{
}

impl ConfigError {
    pub fn message(&self) -> (r: String)
        ensures
            r@ == (match *self {
                ConfigError::NoSymbols => "At least one symbol must be specified"@,
                ConfigError::ZeroRefreshRate => "Refresh rate must be greater than 0"@,
                ConfigError::ZeroOrderbookDepth => "OrderBook depth must be greater than 0"@,
                ConfigError::ZeroTimeout => "Timeout must be greater than 0"@,
                ConfigError::EmptyLogPath => "Log file path must not be empty"@,
                ConfigError::ZeroKlineRefresh => "ui.kline_refresh_secs must be greater than 0"@,
                ConfigError::InvalidSymbol(s) => "Invalid symbol format: "@ + s@,
            }),
    {
        match self {
            ConfigError::NoSymbols => String::from_str("At least one symbol must be specified"),
            ConfigError::ZeroRefreshRate => String::from_str("Refresh rate must be greater than 0"),
            ConfigError::ZeroOrderbookDepth => String::from_str("OrderBook depth must be greater than 0"),
            ConfigError::ZeroTimeout => String::from_str("Timeout must be greater than 0"),
            ConfigError::EmptyLogPath => String::from_str("Log file path must not be empty"),
            ConfigError::ZeroKlineRefresh => String::from_str(
                "ui.kline_refresh_secs must be greater than 0",
            ),
            ConfigError::InvalidSymbol(s) => {
                let mut m = String::from_str("Invalid symbol format: ");
                m.append(s.as_str());
                m
            },
        }
    }
}

/// The characters of `s` other than '-'.
pub open spec fn without_dashes(s: Seq<char>) -> Seq<char>
    decreases s.len(),
{
    if s.len() == 0 {
        s
    } else if s.last() == '-' {
        without_dashes(s.drop_last())
    } else {
        without_dashes(s.drop_last()).push(s.last())
    }
}

impl Config {
    /// A loaded configuration if it is valid; otherwise the defaults, with
    /// the reason it was refused.
    pub fn validated_or_default(self) -> (r: (Config, Option<ConfigError>))
        ensures
            match r.1 {
                None => validation_result(self, Ok(())) && r.0 == self,
                Some(e) => validation_result(self, Err(e)) && is_default_config(r.0),
            },
    {
        match self.validate() {
            Ok(()) => (self, None),
            Err(e) => (Config::default(), Some(e)),
        }
    }

    /// Checks the configuration (see `validation_result`).
    #[verifier::loop_isolation(false)]
    pub fn validate(&self) -> (r: Result<(), ConfigError>)
        ensures
            validation_result(*self, r),
    {
        if self.symbols.len() == 0 {
            return Err(ConfigError::NoSymbols);
        }
        if self.refresh_rate_ms == 0 {
            return Err(ConfigError::ZeroRefreshRate);
        }
        if self.orderbook_depth == 0 {
            return Err(ConfigError::ZeroOrderbookDepth);
        }
        if self.binance.timeout_seconds == 0 {
            return Err(ConfigError::ZeroTimeout);
        }
        if is_blank(self.log.file_path.as_str()) {
            return Err(ConfigError::EmptyLogPath);
        }
        if self.ui.kline_refresh_secs == 0 {
            return Err(ConfigError::ZeroKlineRefresh);
        }
        let ghost sv = strings_view(self.symbols@);
        let mut i: usize = 0;
        proof {
            assert(sv.subrange(0, sv.len() as int) =~= sv);
        }
        while i < self.symbols.len()
            invariant
                i <= self.symbols@.len(),
                sv == strings_view(self.symbols@),
                first_short_symbol(sv) == match first_short_symbol(sv.subrange(i as int, sv.len() as int)) {
                    Some(k) => Some(k + i),
                    None => None,
                },
            decreases self.symbols@.len() - i,
        {
            let ghost sub = sv.subrange(i as int, sv.len() as int);
            proof {
                assert(sub[0] == self.symbols@[i as int]@);
                assert(sub.drop_first() =~= sv.subrange(i + 1, sv.len() as int));
            }
            if symbol_too_short(self.symbols[i].as_str()) {
                proof {
                    assert(first_short_symbol(sub) == Some(0int));
                    assert(first_short_symbol(sv) == Some(i as int));
                }
                return Err(ConfigError::InvalidSymbol(self.symbols[i].clone()));
            }
            i = i + 1;
        }
        proof {
            assert(sv.subrange(i as int, sv.len() as int) =~= Seq::<Seq<char>>::empty());
        }
        Ok(())
    }

    /// Normalizes a symbol for the exchange: drops '-' and uppercases
    /// ("btc-usdt" becomes "BTCUSDT").
    pub fn normalize_symbol(symbol: &str) -> (r: String)
        ensures
            r@ == unicode_upper(without_dashes(symbol@)),
            (forall|i: int| 0 <= i < symbol@.len() ==> (symbol@[i] as u32) < 0x80) ==> r@
                == upper_seq(without_dashes(symbol@)),
    {
        let cs = chars_of(symbol);
        let mut kept: Vec<char> = Vec::new();
        let mut i: usize = 0;
        while i < cs.len()
            invariant
                i <= cs.len(),
                cs@ == symbol@,
                kept@ == without_dashes(cs@.subrange(0, i as int)),
                forall|j: int| 0 <= j < kept@.len() ==> exists|k: int| 0 <= k < i && #[trigger] kept@[j] == cs@[k],
            decreases cs.len() - i,
        {
            proof {
                assert(cs@.subrange(0, i + 1).drop_last() =~= cs@.subrange(0, i as int));
            }
            if cs[i] != '-' {
                kept.push(cs[i]);
                proof {
                    assert forall|j: int| 0 <= j < kept@.len() implies exists|k: int| 0 <= k < i + 1 && #[trigger] kept@[j] == cs@[k] by {
                        if j == kept@.len() - 1 {
                            assert(kept@[j] == cs@[i as int]);
                        }
                    }
                }
            }
            i = i + 1;
        }
        proof {
            assert(cs@.subrange(0, cs.len() as int) =~= cs@);
        }
        let s = string_from_chars(&kept);
        to_uppercase(s.as_str())
    }
}

/// Values read from the `XTRADE_*` environment variables (absent ones are `None`).
#[derive(Debug, Clone, Default)]
pub struct EnvOverrides {
    /// XTRADE_SYMBOLS: comma-separated symbols
    pub symbols: Option<String>,
    /// XTRADE_REFRESH_RATE_MS
    pub refresh_rate_ms: Option<String>,
    /// XTRADE_ORDERBOOK_DEPTH
    pub orderbook_depth: Option<String>,
    /// XTRADE_ENABLE_SPARKLINE
    pub enable_sparkline: Option<String>,
    /// XTRADE_LOG_LEVEL
    pub log_level: Option<String>,
    /// XTRADE_LOG_FILE_PATH
    pub log_file_path: Option<String>,
    /// XTRADE_BINANCE_WS_URL
    pub binance_ws_url: Option<String>,
    /// XTRADE_BINANCE_REST_URL
    pub binance_rest_url: Option<String>,
    /// XTRADE_BINANCE_TIMEOUT_SECONDS
    pub binance_timeout_seconds: Option<String>,
    /// XTRADE_BINANCE_RECONNECT_INTERVAL_MS
    pub binance_reconnect_interval_ms: Option<String>,
    /// XTRADE_BINANCE_MAX_RECONNECT_ATTEMPTS
    pub binance_max_reconnect_attempts: Option<String>,
    /// XTRADE_UI_ENABLE_COLORS
    pub ui_enable_colors: Option<String>,
    /// XTRADE_UI_UPDATE_RATE_FPS
    pub ui_update_rate_fps: Option<String>,
    /// XTRADE_UI_SPARKLINE_POINTS
    pub ui_sparkline_points: Option<String>,
    /// XTRADE_UI_KLINE_REFRESH_SECS
    pub ui_kline_refresh_secs: Option<String>,
}

/// The trimmed, non-empty pieces.
pub open spec fn trimmed_nonempty(ps: Seq<Seq<char>>) -> Seq<Seq<char>>
    decreases ps.len(),
{
    if ps.len() == 0 {
        Seq::empty()
    } else {
        let rest = trimmed_nonempty(ps.drop_last());
        let t = trim(ps.last());
        if t.len() > 0 {
            rest.push(t)
        } else {
            rest
        }
    }
}

pub open spec fn override_u64(old: u64, v: Option<String>) -> u64 {
    match v {
        Some(s) => match uint_value(s@) {
            Some(x) => if 0 <= x <= u64::MAX { x as u64 } else { old },
            None => old,
        },
        None => old,
    }
}

pub open spec fn override_u32(old: u32, v: Option<String>) -> u32 {
    match v {
        Some(s) => match uint_value(s@) {
            Some(x) => if 0 <= x <= u32::MAX { x as u32 } else { old },
            None => old,
        },
        None => old,
    }
}

pub open spec fn override_usize(old: usize, v: Option<String>) -> usize {
    match v {
        Some(s) => match uint_value(s@) {
            Some(x) => if 0 <= x <= usize::MAX { x as usize } else { old },
            None => old,
        },
        None => old,
    }
}

pub open spec fn override_bool(old: bool, v: Option<String>) -> bool {
    match v {
        Some(s) => if s@ == "true"@ { true } else if s@ == "false"@ { false } else { old },
        None => old,
    }
}

pub open spec fn override_text(old: Seq<char>, v: Option<String>) -> Seq<char> {
    match v {
        Some(s) => s@,
        None => old,
    }
}

fn take_u64(old: u64, v: &Option<String>) -> (r: u64)
    ensures
        r == override_u64(old, *v),
{
    match v {
        Some(s) => match parse_u64(s.as_str()) {
            Some(x) => x,
            None => old,
        },
        None => old,
    }
}

fn take_u32(old: u32, v: &Option<String>) -> (r: u32)
    ensures
        r == override_u32(old, *v),
{
    match v {
        Some(s) => match parse_u32(s.as_str()) {
            Some(x) => x,
            None => old,
        },
        None => old,
    }
}

fn take_usize(old: usize, v: &Option<String>) -> (r: usize)
    ensures
        r == override_usize(old, *v),
{
    match v {
        Some(s) => match parse_usize(s.as_str()) {
            Some(x) => x,
            None => old,
        },
        None => old,
    }
}

fn take_bool(old: bool, v: &Option<String>) -> (r: bool)
    ensures
        r == override_bool(old, *v),
{
    match v {
        Some(s) => match parse_bool(s.as_str()) {
            Some(x) => x,
            None => old,
        },
        None => old,
    }
}

/// The symbols listed in a comma-separated text, trimmed, blanks dropped.
pub fn symbols_from_list(list: &str) -> (r: Vec<String>)
    ensures
        strings_view(r@) == trimmed_nonempty(split_on(list@, ',')),
{
    let pieces = split_chars(list, ',');
    let ghost ps = pieces@.map_values(|v: Vec<char>| v@);
    let mut out: Vec<String> = Vec::new();
    let mut i: usize = 0;
    while i < pieces.len()
        invariant
            i <= pieces@.len(),
            ps == pieces@.map_values(|v: Vec<char>| v@),
            strings_view(out@) == trimmed_nonempty(ps.subrange(0, i as int)),
        decreases pieces@.len() - i,
    {
        proof {
            assert(ps.subrange(0, i + 1).drop_last() =~= ps.subrange(0, i as int));
            assert(ps.subrange(0, i + 1).last() == pieces@[i as int]@);
        }
        let t = trim_chars(&pieces[i]);
        if t.len() > 0 {
            let ghost before = out@;
            out.push(string_from_chars(&t));
            proof {
                assert(strings_view(out@) =~= strings_view(before).push(t@));
            }
        }
        i = i + 1;
    }
    proof {
        assert(ps.subrange(0, pieces@.len() as int) =~= ps);
    }
    out
}

impl Config {
    /// Applies environment overrides: each variable that is present and
    /// reads as a value of its field's type replaces that field; the log
    /// path only when not blank; the kline refresh at least 1.
    pub fn apply_env_overrides(&mut self, env: &EnvOverrides)
        ensures
            match env.symbols {
                Some(v) => strings_view(final(self).symbols@) == trimmed_nonempty(split_on(v@, ',')),
                None => final(self).symbols == old(self).symbols,
            },
            final(self).refresh_rate_ms == override_u64(old(self).refresh_rate_ms, env.refresh_rate_ms),
            final(self).orderbook_depth == override_usize(old(self).orderbook_depth, env.orderbook_depth),
            final(self).enable_sparkline == override_bool(old(self).enable_sparkline, env.enable_sparkline),
            final(self).log_level@ == override_text(old(self).log_level@, env.log_level),
            final(self).log.file_path@ == (match env.log_file_path {
                Some(p) => if trim(p@).len() > 0 { p@ } else { old(self).log.file_path@ },
                None => old(self).log.file_path@,
            }),
            final(self).binance.ws_url@ == override_text(old(self).binance.ws_url@, env.binance_ws_url),
            final(self).binance.rest_url@ == override_text(old(self).binance.rest_url@, env.binance_rest_url),
            final(self).binance.timeout_seconds == override_u64(old(self).binance.timeout_seconds, env.binance_timeout_seconds),
            final(self).binance.reconnect_interval_ms == override_u64(
                old(self).binance.reconnect_interval_ms,
                env.binance_reconnect_interval_ms,
            ),
            final(self).binance.max_reconnect_attempts == override_u32(
                old(self).binance.max_reconnect_attempts,
                env.binance_max_reconnect_attempts,
            ),
            final(self).binance.perp_usdt == old(self).binance.perp_usdt,
            final(self).ui.enable_colors == override_bool(old(self).ui.enable_colors, env.ui_enable_colors),
            final(self).ui.update_rate_fps == override_u32(old(self).ui.update_rate_fps, env.ui_update_rate_fps),
            final(self).ui.sparkline_points == override_usize(old(self).ui.sparkline_points, env.ui_sparkline_points),
            final(self).ui.kline_refresh_secs == (match env.ui_kline_refresh_secs {
                Some(v) => match uint_value(v@) {
                    Some(x) => if 0 <= x <= u64::MAX {
                        if x >= 1 { x as u64 } else { 1 }
                    } else {
                        old(self).ui.kline_refresh_secs
                    },
                    None => old(self).ui.kline_refresh_secs,
                },
                None => old(self).ui.kline_refresh_secs,
            }),
            final(self).markets == old(self).markets,
    {
        match &env.symbols {
            Some(v) => {
                self.symbols = symbols_from_list(v.as_str());
            },
            None => {},
        }
        self.refresh_rate_ms = take_u64(self.refresh_rate_ms, &env.refresh_rate_ms);
        self.orderbook_depth = take_usize(self.orderbook_depth, &env.orderbook_depth);
        self.enable_sparkline = take_bool(self.enable_sparkline, &env.enable_sparkline);
        match &env.log_level {
            Some(v) => {
                self.log_level = v.clone();
            },
            None => {},
        }
        match &env.log_file_path {
            Some(p) => {
                if !is_blank(p.as_str()) {
                    self.log.file_path = p.clone();
                }
            },
            None => {},
        }
        match &env.binance_ws_url {
            Some(v) => {
                self.binance.ws_url = v.clone();
            },
            None => {},
        }
        match &env.binance_rest_url {
            Some(v) => {
                self.binance.rest_url = v.clone();
            },
            None => {},
        }
        self.binance.timeout_seconds = take_u64(self.binance.timeout_seconds, &env.binance_timeout_seconds);
        self.binance.reconnect_interval_ms = take_u64(
            self.binance.reconnect_interval_ms,
            &env.binance_reconnect_interval_ms,
        );
        self.binance.max_reconnect_attempts = take_u32(
            self.binance.max_reconnect_attempts,
            &env.binance_max_reconnect_attempts,
        );
        self.ui.enable_colors = take_bool(self.ui.enable_colors, &env.ui_enable_colors);
        self.ui.update_rate_fps = take_u32(self.ui.update_rate_fps, &env.ui_update_rate_fps);
        self.ui.sparkline_points = take_usize(self.ui.sparkline_points, &env.ui_sparkline_points);
        match &env.ui_kline_refresh_secs {
            Some(v) => match parse_u64(v.as_str()) {
                Some(x) => {
                    self.ui.kline_refresh_secs = if x >= 1 { x } else { 1 };
                },
                None => {},
            },
            None => {},
        }
    }
}

/// Why a run-time setting was refused.
#[derive(Debug, Clone)]
pub enum SettingError {
    InvalidRefreshRate(String),
    InvalidOrderbookDepth(String),
    InvalidSparklinePoints(String),
    UnsupportedKey(String),
}

impl SettingError {
    pub fn message(&self) -> (r: String)
        ensures
            r@ == (match *self {
                SettingError::InvalidRefreshRate(v) => "Invalid refresh_rate_ms value: "@ + v@,
                SettingError::InvalidOrderbookDepth(v) => "Invalid orderbook_depth value: "@ + v@,
                SettingError::InvalidSparklinePoints(v) => "Invalid ui.sparkline_points value: "@ + v@
                    + " (min 10)"@,
                SettingError::UnsupportedKey(k) => "Unsupported config key: "@ + k@,
            }),
    {
        match self {
            SettingError::InvalidRefreshRate(v) => {
                let mut m = String::from_str("Invalid refresh_rate_ms value: ");
                m.append(v.as_str());
                m
            },
            SettingError::InvalidOrderbookDepth(v) => {
                let mut m = String::from_str("Invalid orderbook_depth value: ");
                m.append(v.as_str());
                m
            },
            SettingError::InvalidSparklinePoints(v) => {
                let mut m = String::from_str("Invalid ui.sparkline_points value: ");
                m.append(v.as_str());
                m.append(" (min 10)");
                m
            },
            SettingError::UnsupportedKey(k) => {
                let mut m = String::from_str("Unsupported config key: ");
                m.append(k.as_str());
                m
            },
        }
    }
}

/// What `/config set <key> <value>` does to a configuration.
pub open spec fn setting_result(pre: Config, post: Config, key: Seq<char>, value: Seq<char>, r: Result<(), SettingError>) -> bool {
    let k = lower_seq(key);
    let n = uint_value(value);
    if k == "refresh_rate_ms"@ || k == "refresh-rate"@ {
        if n is Some && 0 < n->0 <= u64::MAX {
            r is Ok && post == Config { refresh_rate_ms: n->0 as u64, ..pre }
        } else {
            post == pre && (r matches Err(SettingError::InvalidRefreshRate(v)) && v@ == value)
        }
    } else if k == "orderbook_depth"@ || k == "orderbook-depth"@ {
        if n is Some && 0 < n->0 <= usize::MAX {
            r is Ok && post == Config { orderbook_depth: n->0 as usize, ..pre }
        } else {
            post == pre && (r matches Err(SettingError::InvalidOrderbookDepth(v)) && v@ == value)
        }
    } else if k == "ui.sparkline_points"@ || k == "ui.sparkline-points"@ {
        if n is Some && 10 <= n->0 <= usize::MAX {
            r is Ok && post == Config { ui: UiConfig { sparkline_points: n->0 as usize, ..pre.ui }, ..pre }
        } else {
            post == pre && (r matches Err(SettingError::InvalidSparklinePoints(v)) && v@ == value)
        }
    } else {
        post == pre && (r matches Err(SettingError::UnsupportedKey(u)) && u@ == k)
    }
}

/// A refused setting leaves the configuration as it was.
pub proof fn lemma_refused_setting_changes_nothing(
    pre: Config,
    post: Config,
    key: Seq<char>,
    value: Seq<char>,
    e: SettingError,
)
    requires
        setting_result(pre, post, key, value, Err(e)),
    ensures
        post == pre,
{
}

impl Config {
    /// Changes one run-time setting (see `setting_result`).
    pub fn apply_setting(&mut self, key: &str, value: &str) -> (r: Result<(), SettingError>)
        ensures
            setting_result(*old(self), *final(self), key@, value@, r),
    {
        let k = to_ascii_lower(key);
        let ks = k.as_str();
        if str_eq(ks, "refresh_rate_ms") || str_eq(ks, "refresh-rate") {
            match parse_u64(value) {
                Some(x) => if x > 0 {
                    self.refresh_rate_ms = x;
                    return Ok(());
                },
                None => {},
            }
            Err(SettingError::InvalidRefreshRate(String::from_str(value)))
        } else if str_eq(ks, "orderbook_depth") || str_eq(ks, "orderbook-depth") {
            match parse_usize(value) {
                Some(x) => if x > 0 {
                    self.orderbook_depth = x;
                    return Ok(());
                },
                None => {},
            }
            Err(SettingError::InvalidOrderbookDepth(String::from_str(value)))
        } else if str_eq(ks, "ui.sparkline_points") || str_eq(ks, "ui.sparkline-points") {
            match parse_usize(value) {
                Some(x) => if x >= 10 {
                    self.ui.sparkline_points = x;
                    return Ok(());
                },
                None => {},
            }
            Err(SettingError::InvalidSparklinePoints(String::from_str(value)))
        } else {
            Err(SettingError::UnsupportedKey(k))
        }
    }
}

} // verus!
