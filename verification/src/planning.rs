//! Which subscriptions a session opens at start: the configured markets
//! (streams merged per key) and then the configured symbols on the market
//! chosen on the command line.

use vstd::prelude::*;
use vstd::string::*;
use crate::cli::{Cli, Commands};
use crate::config::{Config, MarketConfig};
use crate::text::strings_view;
use crate::market::{MarketKey, MarketStream, MarketType, StreamSet, default_streams, key_view,
    market_type_from_name, market_type_named, resolve_streams, resolved_streams};
use crate::text::{lower_seq, to_ascii_lower, str_eq};

verus! {

/// The market the command line selects: the `ui` command's market name
/// (see `market_type_named`), spot otherwise.
pub open spec fn cli_market_type(cli: Cli) -> MarketType {
    match cli.command {
        Some(Commands::Ui { market, .. }) => market_type_named(market@),
        _ => MarketType::Spot,
    }
}

pub fn get_market_type(cli: &Cli) -> (r: MarketType)
    ensures
        r == cli_market_type(*cli),
{
    match &cli.command {
        Some(Commands::Ui { market, .. }) => market_type_from_name(market.as_str()),
        _ => MarketType::Spot,
    }
}

/// A key with the streams to open for it.
#[derive(Debug)]
pub struct PlannedSubscription {
    pub key: MarketKey,
    pub streams: StreamSet,
}

/// The plan as a map from keys to stream sets.
pub open spec fn plan_view(v: Seq<PlannedSubscription>) -> Map<(MarketType, Seq<char>), Set<MarketStream>>
    decreases v.len(),
{
    if v.len() == 0 {
        Map::empty()
    } else {
        plan_view(v.drop_last()).insert(key_view(v.last().key), v.last().streams@)
    }
}

/// Each key at most once.
pub open spec fn keys_distinct(v: Seq<PlannedSubscription>) -> bool {
    forall|i: int, j: int|
        0 <= i < j < v.len() ==> key_view(#[trigger] v[i].key) != key_view(#[trigger] v[j].key)
}

/// `streams` added to the entry of `k` (a new entry when there is none).
pub open spec fn merged(
    m: Map<(MarketType, Seq<char>), Set<MarketStream>>,
    k: (MarketType, Seq<char>),
    streams: Set<MarketStream>,
) -> Map<(MarketType, Seq<char>), Set<MarketStream>> {
    if m.contains_key(k) {
        m.insert(k, m[k].union(streams))
    } else {
        m.insert(k, streams)
    }
}

/// Each symbol merged in on market `mt` with `streams`.
pub open spec fn merge_symbols(
    m: Map<(MarketType, Seq<char>), Set<MarketStream>>,
    mt: MarketType,
    symbols: Seq<Seq<char>>,
    streams: Set<MarketStream>,
) -> Map<(MarketType, Seq<char>), Set<MarketStream>>
    decreases symbols.len(),
{
    if symbols.len() == 0 {
        m
    } else {
        merged(merge_symbols(m, mt, symbols.drop_last(), streams), (mt, symbols.last()), streams)
    }
}

/// Whether a market configuration names this exchange (ASCII case ignored).
pub open spec fn is_binance(exchange: Seq<char>) -> bool {
    lower_seq(exchange) == "binance"@
}

/// The configured markets, in order; markets of other exchanges skipped.
pub open spec fn plan_markets(markets: Seq<MarketConfig>) -> Map<(MarketType, Seq<char>), Set<MarketStream>>
    decreases markets.len(),
{
    if markets.len() == 0 {
        Map::empty()
    } else {
        let m = plan_markets(markets.drop_last());
        let mc = markets.last();
        if is_binance(mc.exchange@) {
            merge_symbols(
                m,
                mc.market_type,
                strings_view(mc.symbols@),
                resolved_streams(mc.market_type, strings_view(mc.streams@)),
            )
        } else {
            m
        }
    }
}

/// Each symbol not yet planned is added with `streams`.
pub open spec fn add_missing(
    m: Map<(MarketType, Seq<char>), Set<MarketStream>>,
    mt: MarketType,
    symbols: Seq<Seq<char>>,
    streams: Set<MarketStream>,
) -> Map<(MarketType, Seq<char>), Set<MarketStream>>
    decreases symbols.len(),
{
    if symbols.len() == 0 {
        m
    } else {
        let p = add_missing(m, mt, symbols.drop_last(), streams);
        if p.contains_key((mt, symbols.last())) {
            p
        } else {
            p.insert((mt, symbols.last()), streams)
        }
    }
}

/// The start-up plan: the markets, then the plain symbol list on market
/// `mt` with its default streams.
pub open spec fn subscription_plan(cfg: Config, mt: MarketType) -> Map<(MarketType, Seq<char>), Set<MarketStream>> {
    add_missing(plan_markets(cfg.markets@), mt, strings_view(cfg.symbols@), default_streams(mt))
}

proof fn lemma_plan_view_lookup(v: Seq<PlannedSubscription>, k: (MarketType, Seq<char>))
    requires
        keys_distinct(v),
    ensures
        plan_view(v).contains_key(k) <==> exists|i: int| 0 <= i < v.len() && key_view(#[trigger] v[i].key) == k,
        forall|i: int| 0 <= i < v.len() && key_view(#[trigger] v[i].key) == k ==> plan_view(v)[k] == v[i].streams@,
    decreases v.len(),
{
    if v.len() > 0 {
        let d = v.drop_last();
        assert(keys_distinct(d)) by {
            assert forall|i: int, j: int| 0 <= i < j < d.len() implies key_view(#[trigger] d[i].key) != key_view(
                #[trigger] d[j].key,
            ) by {
                assert(d[i] == v[i] && d[j] == v[j]);
            }
        }
        lemma_plan_view_lookup(d, k);
        if plan_view(v).contains_key(k) && key_view(v.last().key) != k {
            let i = choose|i: int| 0 <= i < d.len() && key_view(#[trigger] d[i].key) == k;
            assert(v[i] == d[i]);
        }
        assert forall|i: int| 0 <= i < v.len() && key_view(#[trigger] v[i].key) == k implies plan_view(v)[k]
            == v[i].streams@ by {
            if i < v.len() - 1 {
                assert(v[i] == d[i]);
                assert(key_view(v[i].key) != key_view(v[v.len() - 1].key));
            }
        }
        if exists|i: int| 0 <= i < v.len() && key_view(#[trigger] v[i].key) == k {
            let i = choose|i: int| 0 <= i < v.len() && key_view(#[trigger] v[i].key) == k;
            if i < v.len() - 1 {
                assert(v[i] == d[i]);
            }
        }
    }
}

proof fn lemma_plan_view_update(v: Seq<PlannedSubscription>, i: int, e: PlannedSubscription)
    requires
        keys_distinct(v),
        0 <= i < v.len(),
        key_view(e.key) == key_view(v[i].key),
    ensures
        plan_view(v.update(i, e)) == plan_view(v).insert(key_view(e.key), e.streams@),
        keys_distinct(v.update(i, e)),
    decreases v.len(),
{
    let u = v.update(i, e);
    assert(keys_distinct(u)) by {
        assert forall|a: int, b: int| 0 <= a < b < u.len() implies key_view(#[trigger] u[a].key) != key_view(
            #[trigger] u[b].key,
        ) by {
            assert(key_view(u[a].key) == key_view(v[a].key));
            assert(key_view(u[b].key) == key_view(v[b].key));
        }
    }
    if i == v.len() - 1 {
        assert(u.drop_last() =~= v.drop_last());
        assert(plan_view(u) =~= plan_view(v).insert(key_view(e.key), e.streams@));
    } else {
        let d = v.drop_last();
        assert(keys_distinct(d)) by {
            assert forall|a: int, b: int| 0 <= a < b < d.len() implies key_view(#[trigger] d[a].key) != key_view(
                #[trigger] d[b].key,
            ) by {
                assert(d[a] == v[a] && d[b] == v[b]);
            }
        }
        assert(u.drop_last() =~= d.update(i, e));
        lemma_plan_view_update(d, i, e);
        assert(key_view(v.last().key) != key_view(v[i].key));
        assert(plan_view(u) =~= plan_view(v).insert(key_view(e.key), e.streams@));
    }
}

/// Adds `streams` to the entry of `key` (see `merged`).
pub fn merge_streams(plan: &mut Vec<PlannedSubscription>, key: MarketKey, streams: &StreamSet)
    requires
        keys_distinct(old(plan)@),
    ensures
        keys_distinct(final(plan)@),
        plan_view(final(plan)@) == merged(plan_view(old(plan)@), key_view(key), streams@),
{
    let ghost v = plan@;
    let mut i: usize = 0;
    while i < plan.len()
        invariant
            plan@ == v,
            v == old(plan)@,
            keys_distinct(v),
            i <= v.len(),
            forall|j: int| 0 <= j < i ==> key_view(#[trigger] v[j].key) != key_view(key),
        decreases v.len() - i,
    {
        if plan[i].key.market_type == key.market_type && str_eq(plan[i].key.symbol.as_str(), key.symbol.as_str()) {
            let mut s = plan[i].streams;
            s.extend(streams);
            let k = plan[i].key.duplicate();
            let e = PlannedSubscription { key: k, streams: s };
            proof {
                lemma_plan_view_lookup(v, key_view(key));
                lemma_plan_view_update(v, i as int, e);
            }
            plan.set(i, e);
            return;
        }
        i = i + 1;
    }
    proof {
        lemma_plan_view_lookup(v, key_view(key));
    }
    plan.push(PlannedSubscription { key, streams: *streams });
    proof {
        assert(plan@.drop_last() =~= v);
        assert forall|a: int, b: int| 0 <= a < b < plan@.len() implies key_view(#[trigger] plan@[a].key) != key_view(
            #[trigger] plan@[b].key,
        ) by {
            if b == plan@.len() - 1 {
                assert(plan@[a] == v[a]);
            } else {
                assert(plan@[a] == v[a] && plan@[b] == v[b]);
            }
        }
    }
}

/// Adds `streams` for `key` unless it is planned already.
fn add_if_missing(plan: &mut Vec<PlannedSubscription>, key: MarketKey, streams: &StreamSet)
    requires
        keys_distinct(old(plan)@),
    ensures
        keys_distinct(final(plan)@),
        plan_view(final(plan)@) == (if plan_view(old(plan)@).contains_key(key_view(key)) {
            plan_view(old(plan)@)
        } else {
            plan_view(old(plan)@).insert(key_view(key), streams@)
        }),
{
    let ghost v = plan@;
    proof {
        lemma_plan_view_lookup(v, key_view(key));
    }
    let mut i: usize = 0;
    while i < plan.len()
        invariant
            plan@ == v,
            v == old(plan)@,
            keys_distinct(v),
            i <= v.len(),
            forall|j: int| 0 <= j < i ==> key_view(#[trigger] v[j].key) != key_view(key),
        decreases v.len() - i,
    {
        if plan[i].key.market_type == key.market_type && str_eq(plan[i].key.symbol.as_str(), key.symbol.as_str()) {
            proof {
                lemma_plan_view_lookup(v, key_view(key));
            }
            return;
        }
        i = i + 1;
    }
    plan.push(PlannedSubscription { key, streams: *streams });
    proof {
        assert(plan@.drop_last() =~= v);
        assert forall|a: int, b: int| 0 <= a < b < plan@.len() implies key_view(#[trigger] plan@[a].key) != key_view(
            #[trigger] plan@[b].key,
        ) by {
            if b == plan@.len() - 1 {
                assert(plan@[a] == v[a]);
            } else {
                assert(plan@[a] == v[a] && plan@[b] == v[b]);
            }
        }
    }
}

/// The subscriptions a session opens at start (see `subscription_plan`),
/// each key once.
pub fn build_subscription_plan(config: &Config, market_type: MarketType) -> (r: Vec<PlannedSubscription>)
    ensures
        keys_distinct(r@),
        plan_view(r@) == subscription_plan(*config, market_type),
{
    let mut plan: Vec<PlannedSubscription> = Vec::new();
    let mut m: usize = 0;
    proof {
        assert(config.markets@.subrange(0, 0) =~= Seq::<MarketConfig>::empty());
        assert(plan_view(plan@) =~= Map::empty());
    }
    while m < config.markets.len()
        invariant
            m <= config.markets@.len(),
            keys_distinct(plan@),
            plan_view(plan@) == plan_markets(config.markets@.subrange(0, m as int)),
        decreases config.markets@.len() - m,
    {
        let market = &config.markets[m];
        proof {
            assert(config.markets@.subrange(0, m + 1).drop_last() =~= config.markets@.subrange(0, m as int));
        }
        let ex = to_ascii_lower(market.exchange.as_str());
        if str_eq(ex.as_str(), "binance") {
            let streams = resolve_streams(market.market_type, &market.streams);
            let ghost base = plan_view(plan@);
            let mut j: usize = 0;
            while j < market.symbols.len()
                invariant
                    j <= market.symbols@.len(),
                    keys_distinct(plan@),
                    plan_view(plan@) == merge_symbols(
                        base,
                        market.market_type,
                        strings_view(market.symbols@.subrange(0, j as int)),
                        streams@,
                    ),
                decreases market.symbols@.len() - j,
            {
                proof {
                    assert(strings_view(market.symbols@.subrange(0, j + 1)).drop_last() =~= strings_view(
                        market.symbols@.subrange(0, j as int),
                    ));
                    assert(strings_view(market.symbols@.subrange(0, j + 1)).last() == market.symbols@[j as int]@);
                }
                let key = MarketKey { market_type: market.market_type, symbol: market.symbols[j].clone() };
                merge_streams(&mut plan, key, &streams);
                j = j + 1;
            }
            proof {
                assert(market.symbols@.subrange(0, market.symbols@.len() as int) =~= market.symbols@);
                assert(strings_view(market.streams@) == market.streams@.map_values(|s: String| s@));
            }
        }
        m = m + 1;
    }
    proof {
        assert(config.markets@.subrange(0, config.markets@.len() as int) =~= config.markets@);
    }
    let defaults = MarketStream::default_streams_for_market(market_type);
    let ghost base = plan_view(plan@);
    let mut s: usize = 0;
    while s < config.symbols.len()
        invariant
            s <= config.symbols@.len(),
            keys_distinct(plan@),
            plan_view(plan@) == add_missing(
                base,
                market_type,
                strings_view(config.symbols@.subrange(0, s as int)),
                defaults@,
            ),
        decreases config.symbols@.len() - s,
    {
        proof {
            assert(strings_view(config.symbols@.subrange(0, s + 1)).drop_last() =~= strings_view(
                config.symbols@.subrange(0, s as int),
            ));
            assert(strings_view(config.symbols@.subrange(0, s + 1)).last() == config.symbols@[s as int]@);
        }
        let key = MarketKey { market_type, symbol: config.symbols[s].clone() };
        add_if_missing(&mut plan, key, &defaults);
        s = s + 1;
    }
    proof {
        assert(config.symbols@.subrange(0, config.symbols@.len() as int) =~= config.symbols@);
    }
    plan
}

} // verus!
