//! How a business is doing: the readout that stands under every answer of the
//! assistant. Amounts with a fraction come as the bits of their 64-bit
//! representation.

use crate::lists::sum_upto;
use crate::reals::{exponent, fraction, negative, round_real, rounded};
use crate::text::{begins, i64_text, push_text, signed_decimal, views};
use vstd::prelude::*;

verus! {

/// How a business is doing.
#[derive(Debug)]
pub struct BusinessPulse {
    pub has_data: bool,
    pub revenue_this_period_cents: i64,
    pub revenue_last_period_cents: i64,
    /// The change in percent; `None` where there was nothing to compare with.
    pub pct_change: Option<u64>,
    pub forecast_next_period_cents: i64,
    pub low_stock_count: i64,
    pub recommendations: Vec<String>,
    pub currency: String,
}

/// The sum of the first `n` counts.
pub open spec fn total_of(counts: Seq<usize>, n: nat) -> int
    decreases n,
{
    if n == 0 {
        0
    } else {
        total_of(counts, (n - 1) as nat) + counts[n - 1]
    }
}

proof fn lemma_total_grows(counts: Seq<usize>, m: nat, n: nat)
    requires
        m <= n,
    ensures
        0 <= total_of(counts, m) <= total_of(counts, n),
    decreases n,
{
    if m < n {
        lemma_total_grows(counts, m, (n - 1) as nat);
    } else if n > 0 {
        lemma_total_grows(counts, (n - 1) as nat, (n - 1) as nat);
    }
}

/// How many items are low on stock over all modules, from the count of each;
/// `None` where that does not fit into 64 bits.
pub fn low_stock_total(counts: &Vec<usize>) -> (r: Option<i64>)
    ensures
        match r {
            Some(n) => n == total_of(counts@, counts@.len()),
            None => total_of(counts@, counts@.len()) > i64::MAX,
        },
{
    let mut total: i64 = 0;
    let mut i: usize = 0;
    while i < counts.len()
        invariant
            i <= counts@.len(),
            total == total_of(counts@, i as nat),
            0 <= total,
        decreases counts@.len() - i,
    {
        proof {
            lemma_total_grows(counts@, (i + 1) as nat, counts@.len());
        }
        let count: u64 = counts[i] as u64;
        if count > (i64::MAX - total) as u64 {
            return None;
        }
        total = total + count as i64;
        i = i + 1;
    }
    Some(total)
}

/// The bits of the number without its sign.
pub open spec fn size_bits(bits: u64) -> int {
    if negative(bits) {
        bits - 0x8000_0000_0000_0000
    } else {
        bits as int
    }
}

/// Whether the bits are those of a number, not of what is no number.
pub open spec fn is_number(bits: u64) -> bool {
    !(exponent(bits) == 2047 && fraction(bits) != 0)
}

/// Whether a number is five or more.
pub open spec fn at_least_five(bits: u64) -> bool {
    is_number(bits) && !negative(bits) && bits >= 0x4014_0000_0000_0000
}

/// Whether a number is minus five or less.
pub open spec fn at_most_minus_five(bits: u64) -> bool {
    is_number(bits) && negative(bits) && size_bits(bits) >= 0x4014_0000_0000_0000
}

/// Whether the last period is worth comparing with: its size is above a
/// hundredth.
pub open spec fn comparable(last: u64) -> bool {
    is_number(last) && size_bits(last) > 0x3F84_7AE1_47AE_147B
}

fn number_parts(bits: u64) -> (r: (bool, bool, u64))
    ensures
        r.0 == is_number(bits),
        r.1 == negative(bits),
        r.2 == size_bits(bits),
{
    let e: u64 = (bits / 0x10_0000_0000_0000) % 2048;
    let f: u64 = bits % 0x10_0000_0000_0000;
    let minus: bool = bits >= 0x8000_0000_0000_0000;
    let size: u64 = if minus {
        bits - 0x8000_0000_0000_0000
    } else {
        bits
    };
    (!(e == 2047 && f != 0), minus, size)
}

/// Whether the last period is worth comparing with.
pub fn is_comparable(last: u64) -> (b: bool)
    ensures
        b == comparable(last),
{
    let (number, _minus, size) = number_parts(last);
    number && size > 0x3F84_7AE1_47AE_147B
}

/// The sentence on revenue. `size_text` is the size of the change in whole
/// percent.
pub open spec fn revenue_sentence(pct: u64, size_text: Seq<char>) -> Seq<char> {
    if at_least_five(pct) {
        "Revenue is up "@ + size_text + "% from last month — worth noting what changed and doing more of it."@
    } else if at_most_minus_five(pct) {
        "Revenue is down "@ + size_text + "% from last month — worth a look at what changed."@
    } else {
        "Revenue is holding roughly steady month over month."@
    }
}

/// The sentence on what is low.
pub open spec fn stock_sentence(count: i64) -> Seq<char> {
    signed_decimal(count as int) + (if count == 1 {
        " item is low on stock — restocking it could prevent missed sales."@
    } else {
        " items are low on stock — restocking them could prevent missed sales."@
    })
}

/// What the readout recommends.
pub open spec fn recommended(pct: Option<u64>, size_text: Seq<char>, low_stock: i64) -> Seq<Seq<char>> {
    let revenue = match pct {
        Some(p) => seq![revenue_sentence(p, size_text)],
        None => Seq::empty(),
    };
    let stock = if low_stock > 0 {
        seq![stock_sentence(low_stock)]
    } else {
        Seq::empty()
    };
    if (revenue + stock).len() == 0 {
        seq!["Steady, no urgent flags right now."@]
    } else {
        revenue + stock
    }
}

/// What the readout recommends.
pub fn recommendations(pct: Option<u64>, size_text: &str, low_stock: i64) -> (list: Vec<String>)
    ensures
        views(list@) == recommended(pct, size_text@, low_stock),
{
    let mut list: Vec<String> = Vec::new();
    assert(views(list@) =~= Seq::<Seq<char>>::empty());
    match pct {
        Some(p) => {
            let (number, minus, size) = number_parts(p);
            let mut s = String::new();
            if number && !minus && size >= 0x4014_0000_0000_0000 {
                s.append("Revenue is up ");
                s.append(size_text);
                s.append("% from last month — worth noting what changed and doing more of it.");
            } else if number && minus && size >= 0x4014_0000_0000_0000 {
                s.append("Revenue is down ");
                s.append(size_text);
                s.append("% from last month — worth a look at what changed.");
            } else {
                s.append("Revenue is holding roughly steady month over month.");
            }
            assert(s@ =~= revenue_sentence(p, size_text@));
            push_text(&mut list, s.as_str());
        },
        None => {},
    }
    if low_stock > 0 {
        let mut s = i64_text(low_stock);
        if low_stock == 1 {
            s.append(" item is low on stock — restocking it could prevent missed sales.");
        } else {
            s.append(" items are low on stock — restocking them could prevent missed sales.");
        }
        push_text(&mut list, s.as_str());
    }
    assert(views(list@).len() == list@.len());
    if list.len() == 0 {
        push_text(&mut list, "Steady, no urgent flags right now.");
    }
    assert(views(list@) =~= recommended(pct, size_text@, low_stock));
    list
}

/// The readout where there is too little to go by.
pub open spec fn is_no_data(p: BusinessPulse, currency: Seq<char>) -> bool {
    &&& !p.has_data
    &&& p.revenue_this_period_cents == 0 && p.revenue_last_period_cents == 0
    &&& p.pct_change is None
    &&& p.forecast_next_period_cents == 0 && p.low_stock_count == 0
    &&& views(p.recommendations@) == seq![
        "Not enough sales history yet to show a trend — check back after a few more sales."@,
    ]
    &&& p.currency@ == currency
}

fn no_data(currency: &str) -> (p: BusinessPulse)
    ensures
        is_no_data(p, currency@),
{
    let mut recommendations: Vec<String> = Vec::new();
    push_text(
        &mut recommendations,
        "Not enough sales history yet to show a trend — check back after a few more sales.",
    );
    assert(views(recommendations@) =~= seq![
        "Not enough sales history yet to show a trend — check back after a few more sales."@,
    ]);
    BusinessPulse {
        has_data: false,
        revenue_this_period_cents: 0,
        revenue_last_period_cents: 0,
        pct_change: None,
        forecast_next_period_cents: 0,
        low_stock_count: 0,
        recommendations,
        currency: currency.to_owned(),
    }
}

/// What a forecast gives the readout.
#[derive(Debug)]
pub struct PulseInput {
    /// The revenue of each period, the latest last.
    pub history: Vec<u64>,
    pub forecast_next: u64,
    /// The change in percent against the last period.
    pub pct: u64,
    /// The size of the change in whole percent.
    pub pct_size_text: String,
    pub low_stock_count: i64,
}

/// Computes the readout. Without a forecast, or with fewer than two periods,
/// it says so; it never makes a number up.
pub fn compute(currency: &str, input: Option<&PulseInput>) -> (p: BusinessPulse)
    ensures
        if input is None || input->0.history@.len() < 2 {
            is_no_data(p, currency@)
        } else {
            let i = input->0;
            let this = i.history@[i.history@.len() - 1];
            let last = i.history@[i.history@.len() - 2];
            let change = if comparable(last) {
                Some(i.pct)
            } else {
                None
            };
            &&& p.has_data
            &&& p.revenue_this_period_cents == rounded(this)
            &&& p.revenue_last_period_cents == rounded(last)
            &&& p.pct_change == change
            &&& p.forecast_next_period_cents == rounded(i.forecast_next)
            &&& p.low_stock_count == i.low_stock_count
            &&& views(p.recommendations@) == recommended(change, i.pct_size_text@, i.low_stock_count)
            &&& p.currency@ == currency@
        },
{
    match input {
        None => no_data(currency),
        Some(i) => {
            if i.history.len() < 2 {
                return no_data(currency);
            }
            let this: u64 = i.history[i.history.len() - 1];
            let last: u64 = i.history[i.history.len() - 2];
            let pct_change: Option<u64> = if is_comparable(last) {
                Some(i.pct)
            } else {
                None
            };
            BusinessPulse {
                has_data: true,
                revenue_this_period_cents: round_real(this),
                revenue_last_period_cents: round_real(last),
                pct_change,
                forecast_next_period_cents: round_real(i.forecast_next),
                low_stock_count: i.low_stock_count,
                recommendations: recommendations(pct_change, i.pct_size_text.as_str(), i.low_stock_count),
                currency: currency.to_owned(),
            }
        },
    }
}

/// A rise is called a rise and a fall a fall: the readout says that revenue is up
/// only of a change that is not negative, that it is down only of one that is, and
/// of a change and its opposite it says the opposite.
pub proof fn law_ups_and_downs_are_told_apart(pct: u64, opposite: u64, size_text: Seq<char>)
    requires
        is_number(pct) && is_number(opposite),
        negative(pct) != negative(opposite),
        size_bits(pct) == size_bits(opposite),
    ensures
        begins(revenue_sentence(pct, size_text), "Revenue is up "@ + size_text) ==> !negative(pct),
        begins(revenue_sentence(pct, size_text), "Revenue is down "@ + size_text) ==> negative(pct),
        begins(revenue_sentence(pct, size_text), "Revenue is up "@ + size_text) <==> begins(
            revenue_sentence(opposite, size_text),
            "Revenue is down "@ + size_text,
        ),
        begins(revenue_sentence(pct, size_text), "Revenue is up "@ + size_text) || begins(
            revenue_sentence(pct, size_text),
            "Revenue is down "@ + size_text,
        ) <==> size_bits(pct) >= 0x4014_0000_0000_0000,
{
    lemma_sentences(pct, size_text);
    lemma_sentences(opposite, size_text);
}

proof fn lemma_sentences(pct: u64, size_text: Seq<char>)
    ensures
        begins(revenue_sentence(pct, size_text), "Revenue is up "@ + size_text) <==> at_least_five(pct),
        begins(revenue_sentence(pct, size_text), "Revenue is down "@ + size_text) <==> at_most_minus_five(pct),
{
    reveal_strlit("Revenue is up ");
    reveal_strlit("Revenue is down ");
    reveal_strlit("Revenue is holding roughly steady month over month.");
    let s = revenue_sentence(pct, size_text);
    let up = "Revenue is up "@ + size_text;
    let down = "Revenue is down "@ + size_text;
    assert(up[11] == 'u' && down[11] == 'd');
    if begins(s, up) {
        assert(s.take(up.len() as int)[11] == s[11]);
    }
    if begins(s, down) {
        assert(s.take(down.len() as int)[11] == s[11]);
    }
    if at_least_five(pct) {
        assert(s.take(up.len() as int) =~= up);
    } else if at_most_minus_five(pct) {
        assert(s.take(down.len() as int) =~= down);
    } else {
        assert(s[11] == 'h');
    }
}

/// The readout speaks of revenue where there is a change to speak of, of stock
/// where something is low, how much of it, and of nothing urgent where there is
/// neither.
pub proof fn law_the_readout_speaks_of_what_there_is(pct: Option<u64>, size_text: Seq<char>, low_stock: i64)
    ensures
        ({
            let list = recommended(pct, size_text, low_stock);
            let lines = (if pct is Some {
                1int
            } else {
                0
            }) + (if low_stock > 0 {
                1int
            } else {
                0
            });
            &&& list.len() == if lines == 0 {
                1
            } else {
                lines
            }
            &&& lines == 0 ==> list[0] == "Steady, no urgent flags right now."@
            &&& pct is Some ==> list[0] == revenue_sentence(pct->0, size_text)
            &&& low_stock > 0 ==> begins(list.last(), signed_decimal(low_stock as int))
        }),
{
    let stock = if low_stock > 0 {
        seq![stock_sentence(low_stock)]
    } else {
        Seq::empty()
    };
    if low_stock > 0 {
        let s = stock_sentence(low_stock);
        let n = signed_decimal(low_stock as int);
        assert(s.take(n.len() as int) =~= n);
        assert(recommended(pct, size_text, low_stock).last() == s);
    }
}

/// What is low over all modules is the sum of what is low in each.
pub proof fn law_low_stock_is_counted_once(counts: Seq<usize>, n: nat)
    requires
        n <= counts.len(),
    ensures
        total_of(counts, n) == sum_upto(n, |i: int| counts[i] as int),
    decreases n,
{
    if n > 0 {
        law_low_stock_is_counted_once(counts, (n - 1) as nat);
    }
}

/// The readout always has something to say, and nothing that is not there: no
/// change is given against a period of zero.
pub proof fn law_pulse_is_never_silent(pct: Option<u64>, size_text: Seq<char>, low_stock: i64)
    ensures
        recommended(pct, size_text, low_stock).len() >= 1,
        !comparable(0),
        !comparable(0x8000_0000_0000_0000),
{
}

} // verus!
