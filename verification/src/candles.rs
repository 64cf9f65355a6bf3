//! Daily candles: read from kline rows and kline events, and kept per
//! symbol as a bounded series in which a candle replaces the one with the
//! same open time.

use vstd::prelude::*;
use vstd::string::*;
use crate::fixed::{fixed_value, parse_fixed};
use crate::stream::KlineStreamEvent;

verus! {

/// Daily candles kept per symbol.
pub const DEFAULT_DAILY_CANDLE_LIMIT: usize = 90;

/// One daily candle; prices and volume in units of `10^-8`.
#[derive(Debug, Clone, Copy, PartialEq, Eq, Structural)]
pub struct DailyCandle {
    pub open_time_ms: u64,
    pub close_time_ms: u64,
    pub open: i128,
    pub high: i128,
    pub low: i128,
    pub close: i128,
    pub volume: i128,
    pub is_closed: bool,
}

impl DailyCandle {
    pub fn new(
        open_time_ms: u64,
        close_time_ms: u64,
        open: i128,
        high: i128,
        low: i128,
        close: i128,
        volume: i128,
        is_closed: bool,
    ) -> (r: Self)
        ensures
            r == (DailyCandle { open_time_ms, close_time_ms, open, high, low, close, volume, is_closed }),
    {
        DailyCandle { open_time_ms, close_time_ms, open, high, low, close, volume, is_closed }
    }
}

/// A value that could not be read as a decimal.
#[derive(Debug, Clone)]
pub struct FieldError {
    pub field: String,
    pub value: String,
}

impl FieldError {
    pub fn message(&self) -> (r: String)
        ensures
            r@ == "failed to parse "@ + self.field@ + " value '"@ + self.value@ + "'"@,
    {
        let mut m = String::from_str("failed to parse ");
        m.append(self.field.as_str());
        m.append(" value '");
        m.append(self.value.as_str());
        m.append("'");
        m
    }
}

/// Reads one named decimal field.
pub fn parse_field(value: &str, field: &str) -> (r: Result<i128, FieldError>)
    ensures
        match r {
            Ok(v) => fixed_value(value@) == Some(v as int),
            Err(e) => fixed_value(value@) is None && e.field@ == field@ && e.value@ == value@,
        },
{
    match parse_fixed(value) {
        Some(v) => Ok(v),
        None => Err(FieldError { field: String::from_str(field), value: String::from_str(value) }),
    }
}

/// Five named decimal texts read in order: all values when every text
/// reads, else the first text that does not read, with its name.
pub open spec fn five_result(
    texts: Seq<Seq<char>>,
    names: Seq<Seq<char>>,
    r: Result<(i128, i128, i128, i128, i128), FieldError>,
) -> bool
    recommends
        texts.len() == 5,
        names.len() == 5,
{
    if forall|i: int| 0 <= i < 5 ==> #[trigger] fixed_value(texts[i]) is Some {
        r matches Ok(v) && v.0 == fixed_value(texts[0])->0 && v.1 == fixed_value(texts[1])->0 && v.2
            == fixed_value(texts[2])->0 && v.3 == fixed_value(texts[3])->0 && v.4 == fixed_value(texts[4])->0
    } else {
        exists|k: int|
            0 <= k < 5 && #[trigger] fixed_value(texts[k]) is None && (forall|j: int|
                0 <= j < k ==> #[trigger] fixed_value(texts[j]) is Some) && (r matches Err(e) && e.field@
                == names[k] && e.value@ == texts[k])
    }
}

/// Reads five named decimal fields in order (see `five_result`).
pub fn parse_five(texts: (&str, &str, &str, &str, &str), names: (&str, &str, &str, &str, &str)) -> (r:
    Result<(i128, i128, i128, i128, i128), FieldError>)
    ensures
        five_result(
            seq![texts.0@, texts.1@, texts.2@, texts.3@, texts.4@],
            seq![names.0@, names.1@, names.2@, names.3@, names.4@],
            r,
        ),
{
    let ghost ts = seq![texts.0@, texts.1@, texts.2@, texts.3@, texts.4@];
    let ghost ns = seq![names.0@, names.1@, names.2@, names.3@, names.4@];
    let a = match parse_field(texts.0, names.0) {
        Ok(v) => v,
        Err(e) => {
            assert(fixed_value(ts[0]) is None && e.field@ == ns[0]);
            return Err(e);
        },
    };
    let b = match parse_field(texts.1, names.1) {
        Ok(v) => v,
        Err(e) => {
            assert(fixed_value(ts[1]) is None && fixed_value(ts[0]) is Some && e.field@ == ns[1]);
            return Err(e);
        },
    };
    let c = match parse_field(texts.2, names.2) {
        Ok(v) => v,
        Err(e) => {
            assert(fixed_value(ts[2]) is None && fixed_value(ts[1]) is Some && e.field@ == ns[2]);
            return Err(e);
        },
    };
    let d = match parse_field(texts.3, names.3) {
        Ok(v) => v,
        Err(e) => {
            assert(fixed_value(ts[3]) is None && fixed_value(ts[2]) is Some && e.field@ == ns[3]);
            return Err(e);
        },
    };
    let f = match parse_field(texts.4, names.4) {
        Ok(v) => v,
        Err(e) => {
            assert(fixed_value(ts[4]) is None && fixed_value(ts[3]) is Some && e.field@ == ns[4]);
            return Err(e);
        },
    };
    proof {
        assert forall|i: int| 0 <= i < 5 implies #[trigger] fixed_value(ts[i]) is Some by {
            if i == 0 {
            } else if i == 1 {
            } else if i == 2 {
            } else if i == 3 {
            } else {
            }
        }
    }
    Ok((a, b, c, d, f))
}

/// The names of a candle's decimal fields, in reading order.
pub open spec fn candle_field_names() -> Seq<Seq<char>> {
    seq!["open"@, "high"@, "low"@, "close"@, "volume"@]
}

/// The candle that five read values make.
pub open spec fn candle_from(
    open_time_ms: u64,
    close_time_ms: u64,
    v: (i128, i128, i128, i128, i128),
    is_closed: bool,
) -> DailyCandle {
    DailyCandle { open_time_ms, close_time_ms, open: v.0, high: v.1, low: v.2, close: v.3, volume: v.4, is_closed }
}

/// A candle from its five decimal texts (open, high, low, close, volume):
/// the first text that does not read is reported.
pub open spec fn candle_result(
    open_time_ms: u64,
    close_time_ms: u64,
    texts: Seq<Seq<char>>,
    is_closed: bool,
    r: Result<DailyCandle, FieldError>,
) -> bool {
    exists|p: Result<(i128, i128, i128, i128, i128), FieldError>|
        #[trigger] five_result(texts, candle_field_names(), p) && match p {
            Ok(v) => r == Ok::<DailyCandle, FieldError>(candle_from(open_time_ms, close_time_ms, v, is_closed)),
            Err(e) => r == Err::<DailyCandle, FieldError>(e),
        }
}

fn build_candle(
    open_time_ms: u64,
    close_time_ms: u64,
    open: &str,
    high: &str,
    low: &str,
    close: &str,
    volume: &str,
    is_closed: bool,
) -> (r: Result<DailyCandle, FieldError>)
    ensures
        candle_result(open_time_ms, close_time_ms, seq![open@, high@, low@, close@, volume@], is_closed, r),
{
    let p = parse_five((open, high, low, close, volume), ("open", "high", "low", "close", "volume"));
    proof {
        reveal_strlit("open");
        reveal_strlit("high");
        reveal_strlit("low");
        reveal_strlit("close");
        reveal_strlit("volume");
        assert(seq!["open"@, "high"@, "low"@, "close"@, "volume"@] =~= candle_field_names());
    }
    match p {
        Ok(v) => Ok(DailyCandle::new(open_time_ms, close_time_ms, v.0, v.1, v.2, v.3, v.4, is_closed)),
        Err(e) => Err(e),
    }
}

/// A daily kline as the REST API lists it, numbers kept as their decimal
/// text.
#[derive(Debug, Clone)]
pub struct KlineRow {
    pub open_time_ms: u64,
    pub open: String,
    pub high: String,
    pub low: String,
    pub close: String,
    pub volume: String,
    pub close_time_ms: u64,
}

/// The texts of a row, in the order open, high, low, close, volume.
pub open spec fn row_texts(row: KlineRow) -> Seq<Seq<char>> {
    seq![row.open@, row.high@, row.low@, row.close@, row.volume@]
}

impl DailyCandle {
    /// The closed candle a REST row describes.
    pub fn from_row(row: &KlineRow) -> (r: Result<DailyCandle, FieldError>)
        ensures
            candle_result(row.open_time_ms, row.close_time_ms, row_texts(*row), true, r),
    {
        build_candle(
            row.open_time_ms,
            row.close_time_ms,
            row.open.as_str(),
            row.high.as_str(),
            row.low.as_str(),
            row.close.as_str(),
            row.volume.as_str(),
            true,
        )
    }
}

/// The texts of a kline event, in the order open, high, low, close, volume.
pub open spec fn event_texts(e: KlineStreamEvent) -> Seq<Seq<char>> {
    seq![e.kline.open@, e.kline.high@, e.kline.low@, e.kline.close@, e.kline.volume@]
}

/// The candle a kline event describes; closed when the kline is final.
pub fn build_daily_candle(event: &KlineStreamEvent) -> (r: Result<DailyCandle, FieldError>)
    ensures
        candle_result(
            event.kline.start_time,
            event.kline.close_time,
            event_texts(*event),
            event.kline.is_final,
            r,
        ),
{
    build_candle(
        event.kline.start_time,
        event.kline.close_time,
        event.kline.open.as_str(),
        event.kline.high.as_str(),
        event.kline.low.as_str(),
        event.kline.close.as_str(),
        event.kline.volume.as_str(),
        event.kline.is_final,
    )
}

/// Index of the first candle opening at `t`, or -1.
pub open spec fn index_of_open(s: Seq<DailyCandle>, t: u64) -> int
    decreases s.len(),
{
    if s.len() == 0 {
        -1
    } else {
        let p = index_of_open(s.drop_last(), t);
        if p >= 0 {
            p
        } else if s.last().open_time_ms == t {
            s.len() - 1
        } else {
            -1
        }
    }
}

pub proof fn lemma_index_of_open(s: Seq<DailyCandle>, t: u64)
    ensures
        -1 <= index_of_open(s, t) < s.len(),
        index_of_open(s, t) >= 0 ==> s[index_of_open(s, t)].open_time_ms == t,
        index_of_open(s, t) == -1 <==> forall|i: int| 0 <= i < s.len() ==> #[trigger] s[i].open_time_ms != t,
    decreases s.len(),
{
    if s.len() > 0 {
        lemma_index_of_open(s.drop_last(), t);
        assert forall|i: int| 0 <= i < s.len() - 1 implies #[trigger] s[i] == s.drop_last()[i] by {}
    }
}

/// A series after `c` goes in: it replaces the first candle with the same
/// open time; otherwise it is appended and the oldest candles beyond
/// `limit` are dropped.
pub open spec fn upserted(s: Seq<DailyCandle>, c: DailyCandle, limit: nat) -> Seq<DailyCandle> {
    let i = index_of_open(s, c.open_time_ms);
    if i >= 0 {
        s.update(i, c)
    } else {
        let t = s.push(c);
        if t.len() > limit {
            t.subrange(t.len() - limit, t.len() as int)
        } else {
            t
        }
    }
}

/// The daily-candle upsert law: into a series of at most `limit` candles
/// with distinct open times, a candle with the open time of `s[i]` replaces
/// it in place; any other candle is appended and the oldest dropped beyond
/// `limit`. Either way the open times stay distinct and the series stays
/// within `limit`.
pub proof fn lemma_upsert_law(s: Seq<DailyCandle>, c: DailyCandle, limit: nat)
    requires
        open_times_distinct(s),
        s.len() <= limit,
    ensures
        open_times_distinct(upserted(s, c, limit)),
        upserted(s, c, limit).len() <= limit,
        forall|i: int| 0 <= i < s.len() && #[trigger] s[i].open_time_ms == c.open_time_ms ==> upserted(s, c, limit)
            == s.update(i, c),
        (forall|i: int| 0 <= i < s.len() ==> #[trigger] s[i].open_time_ms != c.open_time_ms) ==> upserted(s, c, limit)
            == (if s.len() + 1 > limit {
            s.push(c).subrange(s.len() + 1 - limit, s.len() + 1int)
        } else {
            s.push(c)
        }),
{
    lemma_upsert_keeps_open_times_distinct(s, c, limit);
    lemma_index_of_open(s, c.open_time_ms);
    let k = index_of_open(s, c.open_time_ms);
    assert forall|i: int| 0 <= i < s.len() && #[trigger] s[i].open_time_ms == c.open_time_ms implies upserted(
        s,
        c,
        limit,
    ) == s.update(i, c) by {
        if k != i {
            assert(s[k].open_time_ms == s[i].open_time_ms);
        }
    }
}

/// No two candles of the series open at the same time.
pub open spec fn open_times_distinct(s: Seq<DailyCandle>) -> bool {
    forall|i: int, j: int| 0 <= i < j < s.len() ==> s[i].open_time_ms != s[j].open_time_ms
}

/// Putting a candle into a series whose candles open at distinct times
/// keeps them distinct: a series holds at most one candle per day.
pub proof fn lemma_upsert_keeps_open_times_distinct(s: Seq<DailyCandle>, c: DailyCandle, limit: nat)
    requires
        open_times_distinct(s),
    ensures
        open_times_distinct(upserted(s, c, limit)),
{
    lemma_index_of_open(s, c.open_time_ms);
    let i = index_of_open(s, c.open_time_ms);
    if i >= 0 {
        let t = s.update(i, c);
        assert forall|a: int, b: int| 0 <= a < b < t.len() implies t[a].open_time_ms != t[b].open_time_ms by {
            if a == i {
                assert(s[b].open_time_ms != s[i].open_time_ms);
            } else if b == i {
                assert(s[a].open_time_ms != s[i].open_time_ms);
            }
        }
    } else {
        let t = s.push(c);
        assert forall|a: int, b: int| 0 <= a < b < t.len() implies t[a].open_time_ms != t[b].open_time_ms by {
            if b == s.len() {
                assert(s[a].open_time_ms != c.open_time_ms);
            }
        }
        if t.len() > limit {
            let u = t.subrange(t.len() - limit, t.len() as int);
            assert forall|a: int, b: int| 0 <= a < b < u.len() implies u[a].open_time_ms != u[b].open_time_ms by {
                assert(u[a] == t[t.len() - limit + a]);
                assert(u[b] == t[t.len() - limit + b]);
            }
        }
    }
}

/// The last `n` elements of a series.
fn keep_last(v: &Vec<DailyCandle>, n: usize) -> (r: Vec<DailyCandle>)
    requires
        n <= v@.len(),
    ensures
        r@ == v@.subrange(v@.len() - n, v@.len() as int),
{
    let start = v.len() - n;
    let mut out: Vec<DailyCandle> = Vec::new();
    let mut i: usize = start;
    while i < v.len()
        invariant
            start <= i <= v@.len(),
            start == v@.len() - n,
            out@ == v@.subrange(start as int, i as int),
        decreases v@.len() - i,
    {
        out.push(v[i]);
        proof {
            assert(out@ =~= v@.subrange(start as int, i + 1));
        }
        i = i + 1;
    }
    out
}

/// Puts a candle into a series (see `upserted`) and returns it.
pub fn upsert_candle(series: &mut Vec<DailyCandle>, limit: usize, candle: DailyCandle) -> (r: DailyCandle)
    ensures
        r == candle,
        final(series)@ == upserted(old(series)@, candle, limit as nat),
{
    let ghost s = series@;
    let mut i: usize = 0;
    while i < series.len()
        invariant
            i <= series@.len(),
            series@ == s,
            s == old(series)@,
            index_of_open(s.subrange(0, i as int), candle.open_time_ms) == -1,
        decreases series@.len() - i,
    {
        proof {
            assert(s.subrange(0, i + 1).drop_last() =~= s.subrange(0, i as int));
        }
        if series[i].open_time_ms == candle.open_time_ms {
            proof {
                lemma_index_of_open_prefix(s, i as int, candle.open_time_ms);
            }
            series.set(i, candle);
            proof {
                assert(index_of_open(s, candle.open_time_ms) == i);
                assert(series@ =~= s.update(i as int, candle));
            }
            return candle;
        }
        i = i + 1;
    }
    proof {
        assert(s.subrange(0, s.len() as int) =~= s);
    }
    series.push(candle);
    if series.len() > limit {
        let kept = keep_last(series, limit);
        *series = kept;
    }
    candle
}

proof fn lemma_index_of_open_prefix(s: Seq<DailyCandle>, i: int, t: u64)
    requires
        0 <= i < s.len(),
        index_of_open(s.subrange(0, i), t) == -1,
        s[i].open_time_ms == t,
    ensures
        index_of_open(s, t) == i,
    decreases s.len(),
{
    if s.len() == i + 1 {
        assert(s.drop_last() =~= s.subrange(0, i));
    } else {
        assert(s.drop_last().subrange(0, i) =~= s.subrange(0, i));
        lemma_index_of_open_prefix(s.drop_last(), i, t);
    }
}

} // verus!
