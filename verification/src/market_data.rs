//! Order books: their levels, the cache of the latest book per symbol, and the conversion
//! of the exchange's depth messages.
use crate::decimal::{decimal_parse, parse, Decimal};
use crate::symbol_map::SymbolMap;
use crate::text::{to_lowercase, to_uppercase, unicode_lowercase, unicode_uppercase};
use vstd::prelude::*;
use vstd::string::*;

verus! {

/// One price level of a book.
#[derive(Clone, Copy, Debug)]
pub struct OrderBookLevel {
    pub price: Decimal,
    pub quantity: Decimal,
}

/// The best bids (highest first) and asks (lowest first) of one symbol.
#[derive(Clone, Debug)]
pub struct OrderBook {
    pub bids: Vec<OrderBookLevel>,
    pub asks: Vec<OrderBookLevel>,
    pub last_update_id: u64,
}

/// The latest book of each symbol.
#[derive(Clone, Debug)]
pub struct OrderBookCache {
    pub books: SymbolMap<OrderBook>,
}

impl OrderBookCache {
    /// An empty cache.
    pub fn new() -> (r: OrderBookCache)
        ensures
            r.books@ == Map::<Seq<char>, OrderBook>::empty(),
    {
        OrderBookCache { books: SymbolMap::new() }
    }
}

impl Default for OrderBookCache {
    fn default() -> (r: OrderBookCache)
        ensures
            r.books@ == Map::<Seq<char>, OrderBook>::empty(),
    {
        OrderBookCache::new()
    }
}

/// A depth message of the exchange: levels as [price, quantity] texts.
#[derive(Clone, Debug)]
pub struct DepthPayload {
    pub last_update_id: u64,
    pub bids: Vec<[String; 2]>,
    pub asks: Vec<[String; 2]>,
}

/// A message of the combined stream: the stream's name and its depth payload.
#[derive(Clone, Debug)]
pub struct CombinedStreamMessage {
    pub stream: String,
    pub data: DepthPayload,
}

/// The texts of raw levels in reading order: price, quantity, price, quantity, ...
pub open spec fn level_texts(raw: Seq<[String; 2]>) -> Seq<Seq<char>> {
    Seq::new(2 * raw.len(), |k: int| raw[k / 2]@[k % 2]@)
}

/// Every text reads as a decimal.
pub open spec fn all_parse(texts: Seq<Seq<char>>) -> bool {
    forall|k: int| 0 <= k < texts.len() ==> (#[trigger] decimal_parse(texts[k])) is Some
}

/// `levels` holds the decimals that the raw levels read as, in order.
pub open spec fn levels_read_from(levels: Seq<OrderBookLevel>, raw: Seq<[String; 2]>) -> bool {
    &&& levels.len() == raw.len()
    &&& forall|i: int|
        0 <= i < raw.len() ==> {
            &&& Some((#[trigger] levels[i]).price@) == decimal_parse(raw[i]@[0]@)
            &&& Some(levels[i].quantity@) == decimal_parse(raw[i]@[1]@)
        }
}

/// Reads raw [price, quantity] levels; stops at the first unreadable text.
fn read_levels(raw: &Vec<[String; 2]>) -> (r: Result<Vec<OrderBookLevel>, rust_decimal::Error>)
    ensures
        r is Ok <==> all_parse(level_texts(raw@)),
        r matches Ok(levels) ==> levels_read_from(levels@, raw@),
{
    let ghost texts = level_texts(raw@);
    let mut levels: Vec<OrderBookLevel> = Vec::new();
    let n = raw.len();
    let mut i: usize = 0;
    while i < n
        invariant
            n == raw@.len(),
            i <= n,
            texts == level_texts(raw@),
            levels@.len() == i,
            all_parse(texts.subrange(0, 2 * i)),
            forall|j: int|
                0 <= j < i ==> {
                    &&& Some((#[trigger] levels@[j]).price@) == decimal_parse(raw@[j]@[0]@)
                    &&& Some(levels@[j].quantity@) == decimal_parse(raw@[j]@[1]@)
                },
        decreases n - i,
    {
        let entry = &raw[i];
        assert(texts[2 * i] == raw@[i as int]@[0]@);
        assert(texts[2 * i + 1] == raw@[i as int]@[1]@);
        let price = match parse(entry[0].as_str()) {
            Ok(p) => p,
            Err(e) => {
                return Err(e);
            },
        };
        let quantity = match parse(entry[1].as_str()) {
            Ok(q) => q,
            Err(e) => {
                return Err(e);
            },
        };
        levels.push(OrderBookLevel { price, quantity });
        proof {
            assert forall|k: int| 0 <= k < 2 * (i + 1) implies (#[trigger] decimal_parse(
                texts.subrange(0, 2 * (i + 1))[k],
            )) is Some by {
                if k < 2 * i {
                    assert(texts.subrange(0, 2 * (i + 1))[k] == texts.subrange(0, 2 * i as int)[k]);
                }
            }
        }
        i = i + 1;
    }
    assert(texts.subrange(0, 2 * n as int) =~= texts);
    Ok(levels)
}

impl DepthPayload {
    /// Reads the texts of the message as decimals: bids first, then asks, each level price
    /// before quantity. Fails, with the error of the decimal reader, on the first text that
    /// is no decimal.
    pub fn to_order_book(&self) -> (r: Result<OrderBook, rust_decimal::Error>)
        ensures
            r is Ok <==> all_parse(level_texts(self.bids@) + level_texts(self.asks@)),
            r matches Ok(book) ==> {
                &&& levels_read_from(book.bids@, self.bids@)
                &&& levels_read_from(book.asks@, self.asks@)
                &&& book.last_update_id == self.last_update_id
            },
    {
        let ghost tb = level_texts(self.bids@);
        let ghost ta = level_texts(self.asks@);
        let bids = match read_levels(&self.bids) {
            Ok(b) => b,
            Err(e) => {
                proof {
                    let k = choose|k: int| 0 <= k < tb.len() && !(#[trigger] decimal_parse(tb[k]) is Some);
                    assert((tb + ta)[k] == tb[k]);
                }
                return Err(e);
            },
        };
        let asks = match read_levels(&self.asks) {
            Ok(a) => a,
            Err(e) => {
                proof {
                    let k = choose|k: int| 0 <= k < ta.len() && !(#[trigger] decimal_parse(ta[k]) is Some);
                    assert((tb + ta)[tb.len() + k] == ta[k]);
                }
                return Err(e);
            },
        };
        proof {
            assert forall|k: int| 0 <= k < (tb + ta).len() implies (#[trigger] decimal_parse(
                (tb + ta)[k],
            )) is Some by {
                if k < tb.len() {
                    assert((tb + ta)[k] == tb[k]);
                } else {
                    assert((tb + ta)[k] == ta[k - tb.len()]);
                }
            }
        }
        Ok(OrderBook { bids, asks, last_update_id: self.last_update_id })
    }
}


// ---------------------------------------------------------------------------------------
// Streams and snapshots
// ---------------------------------------------------------------------------------------
/// The position of the first '@' of a text, or its length when it has none.
pub open spec fn first_at(s: Seq<char>) -> nat
    decreases s.len(),
{
    if s.len() == 0 {
        0
    } else if s[0] == '@' {
        0
    } else {
        1 + first_at(s.drop_first())
    }
}

/// The symbol a stream's name is about: the text before its first '@', in upper case
/// (e.g. "ltcusdt@depth5@100ms" is about "LTCUSDT").
pub open spec fn stream_symbol_text(stream: Seq<char>) -> Seq<char> {
    unicode_uppercase(stream.subrange(0, first_at(stream) as int))
}

/// `k` is where the first '@' of `s` stands (or its length) when no '@' comes before `k`
/// and `k` is the end or an '@'.
proof fn lemma_first_at(s: Seq<char>, k: int)
    requires
        0 <= k <= s.len(),
        forall|j: int| 0 <= j < k ==> s[j] != '@',
        k == s.len() || s[k] == '@',
    ensures
        first_at(s) == k,
    decreases k,
{
    if k > 0 {
        let rest = s.drop_first();
        assert forall|j: int| 0 <= j < k - 1 implies rest[j] != '@' by {
            assert(rest[j] == s[j + 1]);
        }
        if k < s.len() {
            assert(rest[k - 1] == s[k]);
        }
        lemma_first_at(rest, k - 1);
    }
}

/// The symbol a stream's name is about: the text before its first '@', in upper case.
pub fn stream_symbol(stream: &str) -> (r: String)
    ensures
        r@ == stream_symbol_text(stream@),
{
    let n = stream.unicode_len();
    let mut i: usize = 0;
    let mut found = false;
    while i < n && !found
        invariant
            n == stream@.len(),
            i <= n,
            forall|j: int| 0 <= j < i ==> stream@[j] != '@',
            found ==> i < n && stream@[i as int] == '@',
        decreases n - i + (if found { 0int } else { 1int }),
    {
        if stream.get_char(i) == '@' {
            found = true;
        } else {
            i = i + 1;
        }
    }
    proof {
        lemma_first_at(stream@, i as int);
    }
    to_uppercase(stream.substring_char(0, i))
}

/// The name of the depth stream of a symbol: the symbol in lower case, then
/// "@depth5@100ms".
pub open spec fn stream_name(symbol: Seq<char>) -> Seq<char> {
    unicode_lowercase(symbol) + "@depth5@100ms"@
}

/// The stream names of the symbols, in order, separated by '/'.
pub open spec fn joined_streams(symbols: Seq<Seq<char>>) -> Seq<char>
    decreases symbols.len(),
{
    if symbols.len() == 0 {
        Seq::empty()
    } else if symbols.len() == 1 {
        stream_name(symbols[0])
    } else {
        joined_streams(symbols.drop_last()) + "/"@ + stream_name(symbols.last())
    }
}

/// The address of the combined depth stream of the symbols.
pub open spec fn depth_stream_url_text(ws_url: Seq<char>, symbols: Seq<Seq<char>>) -> Seq<char> {
    ws_url + "?streams="@ + joined_streams(symbols)
}

/// The address of the combined stream that carries the depth of every symbol:
/// `ws_url?streams=` followed by the stream names joined by '/'.
pub fn depth_stream_url(ws_url: &str, symbols: &Vec<String>) -> (r: String)
    ensures
        r@ == depth_stream_url_text(ws_url@, symbols.deep_view()),
{
    let mut streams = String::new();
    let n = symbols.len();
    let mut i: usize = 0;
    while i < n
        invariant
            n == symbols@.len(),
            i <= n,
            streams@ == joined_streams(symbols.deep_view().subrange(0, i as int)),
        decreases n - i,
    {
        let ghost prefix = symbols.deep_view().subrange(0, i as int);
        let ghost next = symbols.deep_view().subrange(0, i + 1);
        proof {
            assert(next.drop_last() =~= prefix);
            assert(next.last() == symbols@[i as int]@);
        }
        if i > 0 {
            streams.append("/");
        }
        let lower = to_lowercase(symbols[i].as_str());
        streams.append(lower.as_str());
        streams.append("@depth5@100ms");
        proof {
            if i == 0 {
                assert(streams@ =~= stream_name(next[0]));
            } else {
                assert(streams@ =~= joined_streams(prefix) + "/"@ + stream_name(next.last()));
            }
        }
        i = i + 1;
    }
    proof {
        assert(symbols.deep_view().subrange(0, n as int) =~= symbols.deep_view());
    }
    let mut url = String::from_str(ws_url);
    url.append("?streams=");
    url.append(streams.as_str());
    proof {
        assert(url@ =~= depth_stream_url_text(ws_url@, symbols.deep_view()));
    }
    url
}

/// The address of the depth snapshot of a symbol, five levels deep.
pub fn snapshot_url(rest_url: &str, symbol: &str) -> (r: String)
    ensures
        r@ == rest_url@ + "/api/v3/depth?symbol="@ + symbol@ + "&limit=5"@,
{
    let mut url = String::from_str(rest_url);
    url.append("/api/v3/depth?symbol=");
    url.append(symbol);
    url.append("&limit=5");
    url
}

impl OrderBookCache {
    /// Takes one message of the combined stream: when all its texts read as decimals, the
    /// book it carries replaces the book of its symbol and true is returned (the cache has
    /// fresh data); otherwise the cache is left as it was and false is returned.
    pub fn apply_stream_message(&mut self, msg: &CombinedStreamMessage) -> (r: bool)
        ensures
            r <==> all_parse(level_texts(msg.data.bids@) + level_texts(msg.data.asks@)),
            !r ==> final(self).books@ == old(self).books@,
            r ==> {
                let symbol = stream_symbol_text(msg.stream@);
                let book = final(self).books@[symbol];
                &&& final(self).books@ == old(self).books@.insert(symbol, book)
                &&& levels_read_from(book.bids@, msg.data.bids@)
                &&& levels_read_from(book.asks@, msg.data.asks@)
                &&& book.last_update_id == msg.data.last_update_id
            },
    {
        let symbol = stream_symbol(msg.stream.as_str());
        match msg.data.to_order_book() {
            Ok(book) => {
                self.books.insert(symbol, book);
                true
            },
            Err(_) => false,
        }
    }
}

} // verus!
