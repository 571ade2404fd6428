//! The stock market source.
use vstd::prelude::*;

use vstd::relations::sorted_by;

use crate::config::Timer;
use crate::scheduler::{clamped, ScheduleEntry, Source};

verus! {

pub open spec fn entry_of(timer: Timer) -> ScheduleEntry {
    ScheduleEntry { source: Source::Market, interval: clamped(timer.awtmt_market) }
}

/// The schedule entry of the market snapshot: the configured interval, at
/// least the minimum.
pub fn init(timer: &Timer) -> (r: ScheduleEntry)
    ensures
        r == entry_of(*timer),
{
    ScheduleEntry::new(Source::Market, timer.awtmt_market)
}


/// Code-point order on text, character by character; a prefix comes first.
pub open spec fn text_le(a: Seq<char>, b: Seq<char>) -> bool
    decreases a.len(),
{
    if a.len() == 0 {
        true
    } else if b.len() == 0 {
        false
    } else if a[0] != b[0] {
        (a[0] as u32) < (b[0] as u32)
    } else {
        text_le(a.drop_first(), b.drop_first())
    }
}

pub open spec fn text_leq() -> spec_fn(Seq<char>, Seq<char>) -> bool {
    |a: Seq<char>, b: Seq<char>| text_le(a, b)
}

pub open spec fn texts_view(v: Seq<String>) -> Seq<Seq<char>> {
    v.map_values(|s: String| s@)
}

/// Relies on `slice::sort_unstable` on `String`, whose order is `str`'s:
/// lexicographic by bytes, which is the order of code points. The strings end
/// up in that order and are the same strings.
#[verifier::external_body]
fn sort_texts(v: &mut Vec<String>)
    ensures
        sorted_by(texts_view(final(v)@), text_leq()),
        texts_view(final(v)@).to_multiset() == texts_view(old(v)@).to_multiset(),
{
    v.sort_unstable();
}

/// Number of fields of a complete quote row.
pub const QUOTE_FIELDS: usize = 7;

/// The keys of the rows, given as `(key, number of fields)`, that have all the
/// fields of a quote, in the rows' order.
pub open spec fn complete_keys(rows: Seq<(String, usize)>) -> Seq<Seq<char>>
    decreases rows.len(),
{
    if rows.len() == 0 {
        Seq::empty()
    } else {
        let s = complete_keys(rows.drop_last());
        if rows.last().1 == QUOTE_FIELDS {
            s.push(rows.last().0@)
        } else {
            s
        }
    }
}

/// Which quote rows the snapshot reports, and in what order: the keys of the
/// rows with all seven fields, ascending.
pub fn market_keys(rows: &Vec<(String, usize)>) -> (r: Vec<String>)
    ensures
        sorted_by(texts_view(r@), text_leq()),
        texts_view(r@).to_multiset() == complete_keys(rows@).to_multiset(),
{
    let mut keys: Vec<String> = Vec::new();
    let mut i: usize = 0;
    while i < rows.len()
        invariant
            i <= rows.len(),
            texts_view(keys@) == complete_keys(rows@.subrange(0, i as int)),
        decreases rows.len() - i,
    {
        let ghost prefix = rows@.subrange(0, i as int + 1);
        assert(prefix.drop_last() =~= rows@.subrange(0, i as int));
        if rows[i].1 == QUOTE_FIELDS {
            let ghost prev = keys@;
            keys.push(rows[i].0.clone());
            assert(texts_view(keys@) =~= texts_view(prev).push(rows@[i as int].0@));
        }
        i = i + 1;
    }
    assert(rows@.subrange(0, i as int) =~= rows@);
    sort_texts(&mut keys);
    keys
}

} // verus!
