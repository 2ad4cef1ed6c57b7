//! Ground truth: picking the latest depth snapshot of a symbol from the
//! entries of a market-data stream, newest first.
use vstd::prelude::*;

use crate::compare::{DepthSnapshot, TruthLevel};
use crate::text::{chars_of, chars_view_seq, concat_chars, parse_u64, parse_u64_spec, split_chars, split_seq, string_of};

verus! {

#[derive(Debug)]
pub enum TruthError {
    Connection(String),
    NotFound(String),
    Parse(String),
}

impl TruthError {
    /// The message shown for the error.
    pub fn message(&self) -> (m: String)
        ensures
            m@ == match self {
                TruthError::Connection(s) => "Redis connection error: "@ + s@,
                TruthError::NotFound(s) => "No truth data found: "@ + s@,
                TruthError::Parse(s) => "Truth data parse error: "@ + s@,
            },
    {
        match self {
            TruthError::Connection(s) => crate::text::join2("Redis connection error: ", s.as_str()),
            TruthError::NotFound(s) => crate::text::join2("No truth data found: ", s.as_str()),
            TruthError::Parse(s) => crate::text::join2("Truth data parse error: ", s.as_str()),
        }
    }
}

/// The millisecond part of a stream id `<ms>-<seq>`: the text before the
/// first `-` read as an unsigned number, 0 when it is not one.
pub open spec fn stream_time(id: Seq<char>) -> u64 {
    match parse_u64_spec(split_seq(id, '-')[0]) {
        Some(v) => v,
        None => 0,
    }
}

pub fn stream_timestamp(stream_id: &str) -> (t: u64)
    ensures
        t == stream_time(stream_id@),
{
    let v = chars_of(stream_id);
    let parts = split_chars(&v, '-');
    proof {
        crate::text::lemma_split_nonempty(v@, '-');
    }
    assert(chars_view_seq(parts@)[0] == parts@[0]@);
    let head = string_of(&parts[0]);
    match parse_u64(head.as_str()) {
        Some(t) => t,
        None => 0,
    }
}

/// A depth message as published on the stream.
#[derive(Debug, Clone)]
pub struct DepthMessage {
    pub symbol: Option<String>,
    pub source: Option<String>,
    pub bids: Vec<TruthLevel>,
    pub asks: Vec<TruthLevel>,
}

/// One stream entry: its id and, when its `data` field held a JSON object,
/// the message decoded from it.
#[derive(Debug, Clone)]
pub struct StreamDepth {
    pub id: String,
    pub message: Option<DepthMessage>,
}

/// The entry carries a message for the symbol.
pub open spec fn entry_is_for(e: StreamDepth, symbol: Seq<char>) -> bool {
    e.message matches Some(m) && m.symbol matches Some(s) && s@ == symbol
}

/// Position of the first entry for the symbol, or -1.
pub open spec fn first_for(es: Seq<StreamDepth>, symbol: Seq<char>) -> int
    decreases es.len(),
{
    if es.len() == 0 {
        -1
    } else if entry_is_for(es[0], symbol) {
        0
    } else {
        let k = first_for(es.drop_first(), symbol);
        if k < 0 {
            -1
        } else {
            k + 1
        }
    }
}

proof fn lemma_first_for(es: Seq<StreamDepth>, symbol: Seq<char>)
    ensures
        -1 <= first_for(es, symbol) < es.len(),
        first_for(es, symbol) >= 0 ==> entry_is_for(es[first_for(es, symbol)], symbol),
        forall|j: int|
            0 <= j < es.len() && (first_for(es, symbol) < 0 || j < first_for(es, symbol))
                ==> !entry_is_for(#[trigger] es[j], symbol),
    decreases es.len(),
{
    if es.len() > 0 && !entry_is_for(es[0], symbol) {
        lemma_first_for(es.drop_first(), symbol);
        assert forall|j: int|
            0 <= j < es.len() && (first_for(es, symbol) < 0 || j < first_for(es, symbol))
                implies !entry_is_for(#[trigger] es[j], symbol) by {
            if j > 0 {
                assert(es.drop_first()[j - 1] == es[j]);
            }
        }
    }
}

/// The snapshot in the first entry (the newest) whose message is for the
/// symbol: its id, the id's millisecond time, the symbol, the publishing
/// source (`unknown` when absent) and both sides of the book. Without such an
/// entry the error names the symbol and the stream.
pub fn select_snapshot(entries: Vec<StreamDepth>, symbol: &str, stream: &str) -> (r: Result<
    DepthSnapshot,
    TruthError,
>)
    ensures
        ({
            let k = first_for(entries@, symbol@);
            if k < 0 {
                r matches Err(TruthError::NotFound(msg)) && msg@ == "No depth data for "@
                    + symbol@ + " in stream "@ + stream@
            } else {
                let e = entries@[k];
                let m = e.message->0;
                r matches Ok(s) && s.stream_id == e.id && s.timestamp == stream_time(e.id@)
                    && s.symbol@ == symbol@ && s.source@ == (match m.source {
                    Some(src) => src@,
                    None => "unknown"@,
                }) && s.bids == m.bids && s.asks == m.asks
            }
        }),
{
    broadcast use vstd::string::group_string_axioms;

    proof {
        lemma_first_for(entries@, symbol@);
    }
    let ghost all = entries@;
    let mut i: usize = 0;
    while i < entries.len()
        invariant
            entries@ == all,
            i <= all.len(),
            forall|j: int| 0 <= j < i ==> !entry_is_for(#[trigger] all[j], symbol@),
        decreases entries.len() - i,
    {
        let hit = match &entries[i].message {
            Some(m) => match &m.symbol {
                Some(s) => crate::text::str_eq(s.as_str(), symbol),
                None => false,
            },
            None => false,
        };
        if hit {
            proof {
                lemma_first_for(all, symbol@);
                assert(entry_is_for(all[i as int], symbol@));
                if first_for(all, symbol@) < 0 || (i as int) < first_for(all, symbol@) {
                    assert(!entry_is_for(all[i as int], symbol@));
                }
                if (i as int) > first_for(all, symbol@) {
                    assert(!entry_is_for(all[first_for(all, symbol@)], symbol@));
                }
            }
            let mut entries = entries;
            let e = entries.remove(i);
            let m = e.message.unwrap();
            let source = match m.source {
                Some(src) => src,
                None => "unknown".to_string(),
            };
            let timestamp = stream_timestamp(e.id.as_str());
            return Ok(
                DepthSnapshot {
                    stream_id: e.id,
                    timestamp,
                    symbol: symbol.to_string(),
                    source,
                    bids: m.bids,
                    asks: m.asks,
                },
            );
        }
        i += 1;
    }
    proof {
        lemma_first_for(all, symbol@);
        if first_for(all, symbol@) >= 0 {
            assert(!entry_is_for(all[first_for(all, symbol@)], symbol@));
        }
    }
    let msg = concat_chars(
        &concat_chars(
            &concat_chars(&chars_of("No depth data for "), &chars_of(symbol)),
            &chars_of(" in stream "),
        ),
        &chars_of(stream),
    );
    Err(TruthError::NotFound(string_of(&msg)))
}

} // verus!
