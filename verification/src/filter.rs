//! Which flows are reported.

use vstd::prelude::*;
use crate::common::FlowEvent;
use crate::numbers::{
    decimal, decimal_is_digits, decimal_reads_back, is_decimal_digit, parse_number, read_number,
};
use crate::text::{
    split, split_at_sep, split_of_one, split_on, trim, trim_keeps_black, trimmed, views,
};

verus! {

/// What a flow must satisfy to be reported.
pub struct EventFilter {
    /// Shorter flows are left out.
    pub min_duration_ms: u64,
    /// Only flows from or to one of these ports; none means all flows.
    pub port_filter: Vec<u16>,
    /// Only flows with retransmits.
    pub retransmits_only: bool,
    /// 1 for every flow, N for one in N.
    pub sample_rate: u32,
}

impl EventFilter {
    /// The flow lasted long enough.
    pub open spec fn long_enough(self, e: FlowEvent) -> bool {
        e.duration_ns / 1_000_000 >= self.min_duration_ms
    }

    /// The flow involves a port that was asked for.
    pub open spec fn port_wanted(self, e: FlowEvent) -> bool {
        self.port_filter@.len() == 0 || self.port_filter@.contains(e.src_port)
            || self.port_filter@.contains(e.dst_port)
    }

    /// The flow has retransmits, if those were asked for.
    pub open spec fn loss_wanted(self, e: FlowEvent) -> bool {
        self.retransmits_only ==> e.retransmit_count > 0
    }

    /// The flow is in the sample: all flows of a chain are, or none.
    pub open spec fn sampled(self, e: FlowEvent) -> bool {
        self.sample_rate <= 1 || e.chain_id as int % self.sample_rate as int == 0
    }

    /// The flow is reported.
    pub open spec fn accepts(self, e: FlowEvent) -> bool {
        self.long_enough(e) && self.port_wanted(e) && self.loss_wanted(e) && self.sampled(e)
    }

    fn has_port(&self, wanted: u16) -> (r: bool)
        ensures
            r == self.port_filter@.contains(wanted),
    {
        let mut i: usize = 0;
        while i < self.port_filter.len()
            invariant
                i <= self.port_filter@.len(),
                forall|k: int| 0 <= k < i ==> self.port_filter@[k] != wanted,
            decreases self.port_filter@.len() - i,
        {
            if self.port_filter[i] == wanted {
                return true;
            }
            i = i + 1;
        }
        false
    }

    /// Whether the flow is reported.
    pub fn matches(&self, event: &FlowEvent) -> (r: bool)
        ensures
            r == self.accepts(*event),
    {
        if self.min_duration_ms > 0 {
            let duration_ms = event.duration_ns / 1_000_000;
            if duration_ms < self.min_duration_ms {
                return false;
            }
        }
        if self.port_filter.len() != 0 {
            if !self.has_port(event.src_port) && !self.has_port(event.dst_port) {
                return false;
            }
        }
        if self.retransmits_only && event.retransmit_count == 0 {
            return false;
        }
        if self.sample_rate > 1 {
            // The chain id serves as a stable hash.
            if event.chain_id % (self.sample_rate as u64) != 0 {
                return false;
            }
        }
        true
    }
}

/// Sampling keeps causal chains whole: of two flows with the same chain id,
/// both are in the sample or neither is.
pub proof fn chains_are_sampled_whole(filter: EventFilter, a: FlowEvent, b: FlowEvent)
    requires
        a.chain_id == b.chain_id,
    ensures
        filter.sampled(a) == filter.sampled(b),
{
}

/// A flow like `e`, in the chain with this id.
pub open spec fn in_chain(e: FlowEvent, id: u64) -> FlowEvent {
    FlowEvent { chain_id: id, ..e }
}

/// Of the chain ids from `start` on, as many as the sample rate says, `k` is the
/// only one whose flows are in the sample.
pub open spec fn is_only_one_sampled(
    filter: EventFilter,
    e: FlowEvent,
    start: u64,
    k: u64,
) -> bool {
    &&& start <= k < start + filter.sample_rate
    &&& forall|j: u64|
        start <= j < start + filter.sample_rate ==> (filter.sampled(#[trigger] in_chain(e, j))
            <==> j == k)
}

/// One chain in N is in the sample: of as many consecutive chain ids as the
/// sample rate says, exactly one is kept.
pub proof fn one_chain_in_n_is_sampled(filter: EventFilter, e: FlowEvent, start: u64)
    requires
        filter.sample_rate >= 1,
        start + filter.sample_rate <= u64::MAX + 1,
    ensures
        exists|k: u64| is_only_one_sampled(filter, e, start, k),
{
    let n = filter.sample_rate as int;
    let rest = start as int % n;
    let kept = if rest == 0 {
        start as int
    } else {
        start - rest + n
    };
    assert(kept % n == 0) by (nonlinear_arith)
        requires
            n > 0,
            rest == start as int % n,
            kept == if rest == 0 {
                start as int
            } else {
                start - rest + n
            },
    ;
    let k = kept as u64;
    assert(0 <= rest < n) by (nonlinear_arith)
        requires
            n > 0,
            rest == start as int % n,
    ;
    assert forall|j: u64| start <= j < start + n implies (filter.sampled(
        #[trigger] in_chain(e, j),
    ) <==> j == k) by {
        if j as int % n == 0 {
            multiples_are_apart(j as int, kept, n);
        }
    }
    assert(is_only_one_sampled(filter, e, start, k));
}

proof fn multiples_are_apart(a: int, b: int, n: int)
    by (nonlinear_arith)
    requires
        n > 0,
        a % n == 0,
        b % n == 0,
        -n < a - b < n,
    ensures
        a == b,
{
}

/// Without any restriction every flow is reported.
pub proof fn open_filter_accepts_all(filter: EventFilter, e: FlowEvent)
    requires
        filter.min_duration_ms == 0,
        filter.port_filter@.len() == 0,
        !filter.retransmits_only,
        filter.sample_rate <= 1,
    ensures
        filter.accepts(e),
{
}

/// A stricter filter reports no flow that a laxer one leaves out: a longer
/// least duration, fewer ports, retransmits asked for, a sample rate that is a
/// multiple.
pub proof fn stricter_filter_reports_less(lax: EventFilter, strict: EventFilter, e: FlowEvent)
    requires
        lax.min_duration_ms <= strict.min_duration_ms,
        lax.port_filter@.len() == 0 || strict.port_filter@.len() > 0 && (forall|p: u16|
            strict.port_filter@.contains(p) ==> lax.port_filter@.contains(p)),
        lax.retransmits_only ==> strict.retransmits_only,
        lax.sample_rate <= 1 || exists|k: int|
            k > 0 && strict.sample_rate == #[trigger] (lax.sample_rate * k),
        strict.accepts(e),
    ensures
        lax.accepts(e),
{
    if lax.sample_rate > 1 {
        let k = choose|k: int| k > 0 && strict.sample_rate == #[trigger] (lax.sample_rate * k);
        let n = lax.sample_rate as int;
        let c = e.chain_id as int;
        assert(n * k > 1) by (nonlinear_arith)
            requires
                n > 1,
                k > 0,
        ;
        let q = c / (n * k);
        assert(c % (n * k) == 0);
        vstd::arithmetic::div_mod::lemma_fundamental_div_mod(c, n * k);
        assert((n * k) * q == n * (k * q)) by (nonlinear_arith);
        vstd::arithmetic::div_mod::lemma_mod_multiples_basic(k * q, n);
        assert(n * (k * q) == (k * q) * n) by (nonlinear_arith);
    }
}

/// The numbers up to `max` among these pieces, white space around them aside;
/// other pieces are left out.
pub open spec fn numbers_among(pieces: Seq<Seq<char>>, max: int) -> Seq<int>
    decreases pieces.len(),
{
    if pieces.len() == 0 {
        seq![]
    } else {
        let before = numbers_among(pieces.drop_last(), max);
        match parse_number(trim(pieces.last()), max) {
            Some(n) => before.push(n),
            None => before,
        }
    }
}

/// The numbers up to `max` in a list with commas between them.
pub open spec fn listed_numbers(s: Seq<char>, max: int) -> Seq<int> {
    numbers_among(split(s, ','), max)
}

fn read_list(s: &str, max: u32) -> (r: Vec<u32>)
    ensures
        r@.map_values(|n: u32| n as int) == listed_numbers(s@, max as int),
        forall|i: int| 0 <= i < r@.len() ==> #[trigger] r@[i] <= max,
{
    let pieces = split_on(s, ',');
    let ghost all = views(pieces@);
    let mut r: Vec<u32> = Vec::new();
    let mut i: usize = 0;
    while i < pieces.len()
        invariant
            i <= pieces@.len(),
            all == views(pieces@),
            r@.map_values(|n: u32| n as int) =~= numbers_among(all.take(i as int), max as int),
            forall|k: int| 0 <= k < r@.len() ==> #[trigger] r@[k] <= max,
        decreases pieces@.len() - i,
    {
        let piece = trimmed(pieces[i].as_str());
        let ghost before = r@.map_values(|n: u32| n as int);
        proof {
            assert(all.take(i + 1).drop_last() =~= all.take(i as int));
            assert(all.take(i + 1).last() == pieces@[i as int]@);
        }
        if let Some(n) = read_number(piece.as_str(), max) {
            r.push(n);
            assert(r@.map_values(|n: u32| n as int) =~= before.push(n as int));
        }
        i = i + 1;
    }
    assert(all.take(i as int) =~= all);
    r
}

/// The ports in a list with commas between them.
pub open spec fn listed_ports(s: Seq<char>) -> Seq<int> {
    listed_numbers(s, u16::MAX as int)
}

/// The process ids in a list with commas between them.
pub open spec fn listed_pids(s: Seq<char>) -> Seq<int> {
    listed_numbers(s, u32::MAX as int)
}

/// Reads a list of ports with commas between them; an empty list means all.
pub fn parse_ports(s: &str) -> (r: Vec<u16>)
    ensures
        r@.map_values(|n: u16| n as int) == listed_ports(s@),
{
    let numbers = read_list(s, 0xffff);
    let mut r: Vec<u16> = Vec::new();
    let mut i: usize = 0;
    while i < numbers.len()
        invariant
            i <= numbers@.len(),
            forall|k: int| 0 <= k < numbers@.len() ==> #[trigger] numbers@[k] <= 0xffff,
            r@.len() == i,
            forall|k: int| 0 <= k < i ==> #[trigger] r@[k] == numbers@[k],
        decreases numbers@.len() - i,
    {
        r.push(numbers[i] as u16);
        i = i + 1;
    }
    assert(r@.map_values(|n: u16| n as int) =~= numbers@.map_values(|n: u32| n as int));
    r
}

/// Reads a list of process ids with commas between them; an empty list means
/// all.
pub fn parse_pids(s: &str) -> (r: Vec<u32>)
    ensures
        r@.map_values(|n: u32| n as int) == listed_pids(s@),
{
    read_list(s, u32::MAX)
}

/// Numbers in decimal, with commas between them.
pub open spec fn comma_list(numbers: Seq<nat>) -> Seq<char>
    decreases numbers.len(),
{
    if numbers.len() == 0 {
        seq![]
    } else if numbers.len() == 1 {
        decimal(numbers[0])
    } else {
        decimal(numbers[0]) + seq![','] + comma_list(numbers.drop_first())
    }
}

proof fn numbers_behind(first: Seq<char>, rest: Seq<Seq<char>>, max: int)
    ensures
        numbers_among(seq![first] + rest, max) == numbers_among(seq![first], max) + numbers_among(
            rest,
            max,
        ),
    decreases rest.len(),
{
    if rest.len() == 0 {
        assert(seq![first] + rest =~= seq![first]);
        assert(numbers_among(rest, max) =~= seq![]);
    } else {
        let all = seq![first] + rest;
        assert(all.drop_last() =~= seq![first] + rest.drop_last());
        assert(all.last() == rest.last());
        numbers_behind(first, rest.drop_last(), max);
    }
    assert(numbers_among(seq![first] + rest, max) =~= numbers_among(seq![first], max)
        + numbers_among(rest, max));
}

proof fn decimal_piece(n: nat, max: int)
    requires
        n <= max,
    ensures
        !decimal(n).contains(','),
        numbers_among(seq![decimal(n)], max) == seq![n as int],
{
    decimal_is_digits(n);
    decimal_reads_back(n, max);
    assert forall|i: int| 0 <= i < decimal(n).len() implies !crate::text::is_white(
        #[trigger] decimal(n)[i],
    ) && decimal(n)[i] != ',' by {
        assert(is_decimal_digit(decimal(n)[i]));
    }
    trim_keeps_black(decimal(n));
    reveal_with_fuel(numbers_among, 2);
    assert(numbers_among(seq![decimal(n)], max) =~= seq![n as int]);
}

/// A list of numbers with commas between them reads back; an empty list gives
/// no numbers.
pub proof fn comma_list_reads_back(numbers: Seq<nat>, max: int)
    requires
        forall|i: int| 0 <= i < numbers.len() ==> #[trigger] numbers[i] <= max,
    ensures
        listed_numbers(comma_list(numbers), max) == numbers.map_values(|n: nat| n as int),
    decreases numbers.len(),
{
    let all = numbers.map_values(|n: nat| n as int);
    if numbers.len() == 0 {
        split_of_one(seq![], ',');
        reveal_with_fuel(numbers_among, 2);
        assert(trim(seq![]) =~= seq![]) by {
            trim_keeps_black(seq![]);
        }
        assert(listed_numbers(comma_list(numbers), max) =~= all);
    } else if numbers.len() == 1 {
        decimal_piece(numbers[0], max);
        split_of_one(decimal(numbers[0]), ',');
        assert(listed_numbers(comma_list(numbers), max) =~= all);
    } else {
        let rest = numbers.drop_first();
        decimal_piece(numbers[0], max);
        split_at_sep(decimal(numbers[0]), ',', comma_list(rest));
        split_of_one(decimal(numbers[0]), ',');
        numbers_behind(decimal(numbers[0]), split(comma_list(rest), ','), max);
        assert forall|i: int| 0 <= i < rest.len() implies #[trigger] rest[i] <= max by {
            assert(rest[i] == numbers[i + 1]);
        }
        comma_list_reads_back(rest, max);
        assert(all =~= seq![numbers[0] as int] + rest.map_values(|n: nat| n as int));
    }
}

} // verus!
