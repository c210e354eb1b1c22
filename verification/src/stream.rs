//! Assembling a streamed completion: reasoning and content arrive in pieces,
//! and each tool call arrives as deltas keyed by its index, whose argument
//! pieces are concatenated; the calls come out in the order of their index.

use vstd::prelude::*;

use crate::agent::{or_empty, GenerationResult};
use crate::message::{calls_view, copy_opt, opt_view, ToolCall, ToolCallFunction, ToolCallView, Usage};
use crate::session::{StreamEvent, StreamEventView};
use crate::text::same_text;
use std::collections::BTreeMap;
use vstd::std_specs::btree::increasing_seq;
use vstd::std_specs::iter::IteratorSpec;

verus! {

/// A piece of a tool call's function.
#[derive(Clone, Debug)]
pub struct FunctionDelta {
    pub name: Option<String>,
    pub arguments: Option<String>,
}

/// A piece of a tool call.
#[derive(Clone, Debug)]
pub struct ToolCallDelta {
    pub index: Option<u32>,
    pub id: Option<String>,
    pub function: FunctionDelta,
}

/// The pieces of one streamed chunk.
#[derive(Clone, Debug)]
pub struct Delta {
    pub reasoning: Option<String>,
    pub content: Option<String>,
    pub tool_calls: Option<Vec<ToolCallDelta>>,
}

#[derive(Clone, Debug)]
pub struct Choice {
    pub delta: Delta,
}

/// One streamed chunk of a completion.
#[derive(Clone, Debug)]
pub struct StreamResponse {
    pub choices: Vec<Choice>,
    pub usage: Option<Usage>,
}

pub struct ToolCallDeltaView {
    pub index: Option<u32>,
    pub id: Option<Seq<char>>,
    pub name: Option<Seq<char>>,
    pub arguments: Option<Seq<char>>,
}

impl View for ToolCallDelta {
    type V = ToolCallDeltaView;

    open spec fn view(&self) -> ToolCallDeltaView {
        ToolCallDeltaView {
            index: self.index,
            id: opt_view(self.id),
            name: opt_view(self.function.name),
            arguments: opt_view(self.function.arguments),
        }
    }
}

pub open spec fn delta_index(d: ToolCallDeltaView) -> u32 {
    match d.index {
        Some(i) => i,
        None => 0,
    }
}

pub open spec fn index_key(c: ToolCallView) -> u32 {
    match c.index {
        Some(i) => i,
        None => 0,
    }
}

/// The calls are ordered by strictly increasing index, and each has an index
/// and arguments.
pub open spec fn calls_wf(s: Seq<ToolCallView>) -> bool {
    &&& forall|i: int| 0 <= i < s.len() ==> (#[trigger] s[i]).index is Some && s[i].arguments is Some
    &&& forall|i: int, j: int|
        0 <= i < j < s.len() ==> index_key(#[trigger] s[i]) < index_key(#[trigger] s[j])
}

/// The position of the first call whose index is at least `k`, or the length.
pub open spec fn slot(s: Seq<ToolCallView>, k: u32) -> int
    decreases s.len(),
{
    if s.len() == 0 {
        0
    } else if index_key(s[0]) >= k {
        0
    } else {
        1 + slot(s.drop_first(), k)
    }
}

/// The call that the first delta of index `k` starts.
pub open spec fn started_call(d: ToolCallDeltaView) -> ToolCallView {
    ToolCallView {
        index: Some(delta_index(d)),
        id: d.id,
        call_type: Some("function"@),
        name: d.name,
        arguments: Some(or_empty(d.arguments)),
    }
}

/// The calls after the delta `d`: it extends the arguments of the call of its
/// index, or starts that call at its place in index order.
pub open spec fn merge_delta(s: Seq<ToolCallView>, d: ToolCallDeltaView) -> Seq<ToolCallView> {
    let k = delta_index(d);
    let p = slot(s, k);
    if p < s.len() && index_key(s[p]) == k {
        s.update(
            p,
            ToolCallView { arguments: Some(or_empty(s[p].arguments) + or_empty(d.arguments)), ..s[p] },
        )
    } else {
        s.insert(p, started_call(d))
    }
}

pub open spec fn merge_all(s: Seq<ToolCallView>, ds: Seq<ToolCallDeltaView>) -> Seq<ToolCallView>
    decreases ds.len(),
{
    if ds.len() == 0 {
        s
    } else {
        merge_delta(merge_all(s, ds.drop_last()), ds.last())
    }
}

proof fn lemma_slot(s: Seq<ToolCallView>, k: u32)
    ensures
        0 <= slot(s, k) <= s.len(),
        slot(s, k) < s.len() ==> index_key(s[slot(s, k)]) >= k,
        forall|i: int| 0 <= i < slot(s, k) ==> index_key(s[i]) < k,
    decreases s.len(),
{
    if s.len() > 0 && index_key(s[0]) < k {
        lemma_slot(s.drop_first(), k);
        assert forall|i: int| 0 <= i < slot(s, k) implies index_key(s[i]) < k by {
            if i > 0 {
                assert(s[i] == s.drop_first()[i - 1]);
            }
        }
    }
}

/// Law: merging a delta keeps the calls in strictly increasing index order,
/// and afterwards a call of the delta's index is there.
pub proof fn law_merge_keeps_order(s: Seq<ToolCallView>, d: ToolCallDeltaView)
    requires
        calls_wf(s),
    ensures
        calls_wf(merge_delta(s, d)),
        exists|i: int|
            0 <= i < merge_delta(s, d).len() && index_key(merge_delta(s, d)[i]) == delta_index(d),
{
    let k = delta_index(d);
    lemma_slot(s, k);
    let p = slot(s, k);
    let t = merge_delta(s, d);
    if p < s.len() && index_key(s[p]) == k {
        assert(index_key(t[p]) == k);
    } else {
        assert forall|i: int, j: int| 0 <= i < j < t.len() implies index_key(t[i]) < index_key(
            t[j],
        ) by {
            if j < p {
            } else if i < p && j == p {
            } else if i < p {
                assert(t[j] == s[j - 1]);
            } else if i == p {
                assert(t[j] == s[j - 1]);
                assert(index_key(s[p]) >= k);
                if j - 1 > p {
                    assert(index_key(s[p]) < index_key(s[j - 1]));
                }
            } else {
                assert(t[i] == s[i - 1]);
                assert(t[j] == s[j - 1]);
            }
        }
        assert(index_key(t[p]) == k);
    }
}

/// The call of index `k` among `s`, if any.
pub open spec fn call_at_index(s: Seq<ToolCallView>, k: u32) -> Option<ToolCallView> {
    let p = slot(s, k);
    if p < s.len() && index_key(s[p]) == k {
        Some(s[p])
    } else {
        None
    }
}

/// The call of index `delta_index(d)` after the delta `d`, given the call of
/// that index before it.
pub open spec fn extend_call(c: Option<ToolCallView>, d: ToolCallDeltaView) -> ToolCallView {
    match c {
        Some(c) => ToolCallView { arguments: Some(or_empty(c.arguments) + or_empty(d.arguments)), ..c },
        None => started_call(d),
    }
}

/// The call of index `k` assembled from the deltas `ds`, in arrival order.
pub open spec fn assembled(ds: Seq<ToolCallDeltaView>, k: u32) -> Option<ToolCallView>
    decreases ds.len(),
{
    if ds.len() == 0 {
        None
    } else if delta_index(ds.last()) == k {
        Some(extend_call(assembled(ds.drop_last(), k), ds.last()))
    } else {
        assembled(ds.drop_last(), k)
    }
}

/// The argument pieces of the deltas of index `k`, concatenated in arrival order.
pub open spec fn pieces(ds: Seq<ToolCallDeltaView>, k: u32) -> Seq<char>
    decreases ds.len(),
{
    if ds.len() == 0 {
        Seq::empty()
    } else if delta_index(ds.last()) == k {
        pieces(ds.drop_last(), k) + or_empty(ds.last().arguments)
    } else {
        pieces(ds.drop_last(), k)
    }
}

proof fn lemma_slot_unique(s: Seq<ToolCallView>, k: u32, j: int)
    requires
        0 <= j <= s.len(),
        forall|i: int| 0 <= i < j ==> index_key(s[i]) < k,
        j < s.len() ==> index_key(s[j]) >= k,
    ensures
        slot(s, k) == j,
{
    lemma_slot(s, k);
    if slot(s, k) < j {
        assert(index_key(s[slot(s, k)]) < k);
    }
    if slot(s, k) > j {
        assert(index_key(s[j]) < k);
    }
}

/// Merging a delta changes the call of the delta's index only.
proof fn lemma_merge_call(s: Seq<ToolCallView>, d: ToolCallDeltaView, k: u32)
    requires
        calls_wf(s),
    ensures
        call_at_index(merge_delta(s, d), k) == if k == delta_index(d) {
            Some(extend_call(call_at_index(s, k), d))
        } else {
            call_at_index(s, k)
        },
{
    let x = delta_index(d);
    lemma_slot(s, x);
    lemma_slot(s, k);
    let p = slot(s, x);
    let q = slot(s, k);
    let t = merge_delta(s, d);
    if p < s.len() && index_key(s[p]) == x {
        assert(t.len() == s.len());
        assert forall|i: int| 0 <= i < t.len() implies index_key(t[i]) == index_key(s[i]) by {}
        lemma_slot_unique(t, k, q);
        if k == x {
            assert(q == p);
        } else if q == p {
            assert(index_key(s[p]) != k);
        } else if q < s.len() {
            assert(t[q] == s[q]);
        }
    } else {
        if k == x {
            lemma_slot_unique(t, k, p);
            assert(t[p] == started_call(d));
        } else if k < x {
            assert(q <= p) by {
                if q > p {
                    if p < s.len() {
                        assert(index_key(s[p]) < k);
                    }
                }
            }
            assert forall|i: int| 0 <= i < q implies index_key(t[i]) < k by {
                assert(t[i] == s[i]);
            }
            if q < p {
                assert(t[q] == s[q]);
            } else {
                assert(t[q] == started_call(d));
                if q < s.len() {
                    assert(index_key(s[q]) >= x);
                    assert(index_key(s[q]) != x);
                }
            }
            lemma_slot_unique(t, k, q);
        } else {
            assert(q >= p) by {
                if q < p {
                    assert(index_key(s[q]) >= k);
                }
            }
            assert forall|i: int| 0 <= i < q + 1 implies index_key(t[i]) < k by {
                if i < p {
                    assert(t[i] == s[i]);
                } else if i > p {
                    assert(t[i] == s[i - 1]);
                }
            }
            if q < s.len() {
                assert(t[q + 1] == s[q]);
            }
            lemma_slot_unique(t, k, q + 1);
        }
    }
}

/// Law: from no calls, the deltas `ds` leave the calls in index order and,
/// for each index `k`, the call `assembled` from the deltas of that index
/// (started by the first, extended by each later one): it exists exactly when
/// some delta has that index, and its arguments are the argument pieces of
/// those deltas concatenated in arrival order.
pub proof fn law_calls_assembled(ds: Seq<ToolCallDeltaView>, k: u32)
    ensures
        calls_wf(merge_all(Seq::empty(), ds)),
        call_at_index(merge_all(Seq::empty(), ds), k) == assembled(ds, k),
        assembled(ds, k) is Some <==> exists|i: int| 0 <= i < ds.len() && delta_index(ds[i]) == k,
        assembled(ds, k) matches Some(c) ==> c.arguments == Some(pieces(ds, k)) && c.index == Some(k),
    decreases ds.len(),
{
    if ds.len() == 0 {
        lemma_slot(Seq::<ToolCallView>::empty(), k);
    } else {
        let pre = ds.drop_last();
        law_calls_assembled(pre, k);
        let s = merge_all(Seq::empty(), pre);
        law_merge_keeps_order(s, ds.last());
        lemma_merge_call(s, ds.last(), k);
        if exists|i: int| 0 <= i < pre.len() && delta_index(pre[i]) == k {
            let i = choose|i: int| 0 <= i < pre.len() && delta_index(pre[i]) == k;
            assert(ds[i] == pre[i]);
        }
        if delta_index(ds.last()) != k && exists|i: int| 0 <= i < ds.len() && delta_index(ds[i]) == k {
            let i = choose|i: int| 0 <= i < ds.len() && delta_index(ds[i]) == k;
            assert(i < pre.len());
            assert(pre[i] == ds[i]);
        }
        if assembled(pre, k) is None {
            lemma_pieces_empty(pre, k);
        }
    }
}

/// Without a delta of index `k`, there are no pieces of that index.
proof fn lemma_pieces_empty(ds: Seq<ToolCallDeltaView>, k: u32)
    requires
        assembled(ds, k) is None,
    ensures
        pieces(ds, k) == Seq::<char>::empty(),
    decreases ds.len(),
{
    if ds.len() > 0 {
        lemma_pieces_empty(ds.drop_last(), k);
    }
}

/// The map `m` holds exactly the calls of `s`, each under its index.
pub open spec fn keyed_by_index(m: Map<u32, ToolCall>, s: Seq<ToolCallView>) -> bool {
    &&& m.dom().finite()
    &&& m.dom().len() == s.len()
    &&& forall|k: u32|
        #![trigger m.contains_key(k)]
        #![trigger call_at_index(s, k)]
        m.contains_key(k) <==> call_at_index(s, k) is Some
    &&& forall|k: u32| m.contains_key(k) ==> call_at_index(s, k) == Some(#[trigger] m[k]@)
}

/// In calls ordered by index, the call at each position is the call of its
/// index.
proof fn lemma_call_at_own_index(s: Seq<ToolCallView>, i: int)
    requires
        calls_wf(s),
        0 <= i < s.len(),
    ensures
        call_at_index(s, index_key(s[i])) == Some(s[i]),
{
    let k = index_key(s[i]);
    assert forall|j: int| 0 <= j < i implies index_key(s[j]) < k by {}
    lemma_slot_unique(s, k, i);
}

/// In calls ordered by index, a call of index `k` is at some position.
proof fn lemma_call_at_index_some(s: Seq<ToolCallView>, k: u32)
    requires
        calls_wf(s),
        call_at_index(s, k) is Some,
    ensures
        0 <= slot(s, k) < s.len(),
        index_key(s[slot(s, k)]) == k,
{
    lemma_slot(s, k);
}

/// After a delta, the map with the extended call under the delta's index
/// holds exactly the merged calls.
proof fn lemma_keyed_merge(m: Map<u32, ToolCall>, s: Seq<ToolCallView>, d: ToolCallDeltaView, c: ToolCall)
    requires
        calls_wf(s),
        keyed_by_index(m, s),
        c@ == extend_call(call_at_index(s, delta_index(d)), d),
    ensures
        calls_wf(merge_delta(s, d)),
        keyed_by_index(m.insert(delta_index(d), c), merge_delta(s, d)),
{
    let k = delta_index(d);
    let t = merge_delta(s, d);
    let n = m.insert(k, c);
    law_merge_keeps_order(s, d);
    lemma_slot(s, k);
    assert forall|j: u32| n.contains_key(j) <==> call_at_index(t, j) is Some by {
        lemma_merge_call(s, d, j);
    }
    assert forall|j: u32| n.contains_key(j) implies call_at_index(t, j) == Some(#[trigger] n[j]@) by {
        lemma_merge_call(s, d, j);
    }
    if m.contains_key(k) {
        assert(n.dom() =~= m.dom());
    } else {
        assert(n.dom() =~= m.dom().insert(k));
    }
}

/// Two strictly increasing sequences of the same numbers are the same.
proof fn lemma_sorted_unique(a: Seq<u32>, b: Seq<u32>)
    requires
        forall|i: int, j: int| 0 <= i < j < a.len() ==> a[i] < a[j],
        forall|i: int, j: int| 0 <= i < j < b.len() ==> b[i] < b[j],
        forall|x: u32| a.contains(x) <==> b.contains(x),
    ensures
        a == b,
    decreases a.len(),
{
    if a.len() == 0 {
        if b.len() > 0 {
            assert(b.contains(b[0]));
        }
        assert(a =~= b);
    } else {
        assert(a.contains(a[0]));
        assert(b.contains(a[0]));
        assert(b.len() > 0);
        assert(b.contains(b[0]));
        assert(a.contains(b[0]));
        let i = choose|i: int| 0 <= i < b.len() && b[i] == a[0];
        let j = choose|j: int| 0 <= j < a.len() && a[j] == b[0];
        assert(a[0] == b[0]) by {
            if i > 0 {
                assert(b[0] < b[i]);
            }
            if j > 0 {
                assert(a[0] < a[j]);
            }
        }
        let a1 = a.drop_first();
        let b1 = b.drop_first();
        assert forall|x: u32| a1.contains(x) <==> b1.contains(x) by {
            if a1.contains(x) {
                let p = choose|p: int| 0 <= p < a1.len() && a1[p] == x;
                assert(a[p + 1] == x);
                assert(a.contains(x));
                assert(x != a[0]);
                let q = choose|q: int| 0 <= q < b.len() && b[q] == x;
                assert(q > 0);
                assert(b1[q - 1] == x);
            }
            if b1.contains(x) {
                let p = choose|p: int| 0 <= p < b1.len() && b1[p] == x;
                assert(b[p + 1] == x);
                assert(b.contains(x));
                assert(x != b[0]);
                let q = choose|q: int| 0 <= q < a.len() && a[q] == x;
                assert(q > 0);
                assert(a1[q - 1] == x);
            }
        }
        lemma_sorted_unique(a1, b1);
        assert(a =~= b) by {
            assert forall|p: int| 0 <= p < a.len() implies a[p] == b[p] by {
                if p > 0 {
                    assert(a[p] == a1[p - 1]);
                    assert(b[p] == b1[p - 1]);
                }
            }
        }
    }
}

/// The numbers are in increasing order, as the map walks them.
proof fn lemma_numbers_increase(ks: Seq<u32>)
    requires
        increasing_seq(ks),
    ensures
        forall|i: int, j: int| 0 <= i < j < ks.len() ==> ks[i] < ks[j],
{
    assert(vstd::laws_cmp::obeys_cmp::<u32>());
    assert forall|i: int, j: int| 0 <= i < j < ks.len() implies ks[i] < ks[j] by {
        assert(vstd::std_specs::cmp::OrdSpec::cmp_spec(&ks[i], &ks[j]) is Less);
    }
}

/// The map's keys in increasing order give the calls in their order.
proof fn lemma_keyed_order(m: Map<u32, ToolCall>, s: Seq<ToolCallView>, keys: Seq<u32>)
    requires
        calls_wf(s),
        keyed_by_index(m, s),
        increasing_seq(keys),
        keys.to_set() == m.dom(),
    ensures
        keys.len() == s.len(),
        forall|i: int| 0 <= i < s.len() ==> #[trigger] m[keys[i]]@ == s[i],
{
    lemma_numbers_increase(keys);
    let own = Seq::new(s.len(), |i: int| index_key(s[i]));
    assert forall|x: u32| keys.contains(x) <==> own.contains(x) by {
        assert(keys.to_set().contains(x) <==> keys.contains(x));
        if own.contains(x) {
            let i = choose|i: int| 0 <= i < own.len() && own[i] == x;
            lemma_call_at_own_index(s, i);
        }
        if keys.contains(x) {
            assert(m.contains_key(x));
            lemma_call_at_index_some(s, x);
            assert(own[slot(s, x)] == x);
        }
    }
    lemma_sorted_unique(keys, own);
    assert forall|i: int| 0 <= i < s.len() implies #[trigger] m[keys[i]]@ == s[i] by {
        assert(keys[i] == index_key(s[i]));
        lemma_call_at_own_index(s, i);
        assert(keys.contains(keys[i]));
    }
}

/// The state of a completion being streamed.
pub struct StreamAccumulator {
    reasoning: String,
    content: String,
    /// The calls so far, keyed by their index.
    calls: BTreeMap<u32, ToolCall>,
    /// The calls so far in index order.
    ordered: Ghost<Seq<ToolCallView>>,
    first_token_seen: bool,
    usage: Option<Usage>,
}

pub struct AccumulatorView {
    pub reasoning: Seq<char>,
    pub content: Seq<char>,
    pub calls: Seq<ToolCallView>,
    pub first_token_seen: bool,
    pub usage: Option<Usage>,
}

impl View for StreamAccumulator {
    type V = AccumulatorView;

    closed spec fn view(&self) -> AccumulatorView {
        AccumulatorView {
            reasoning: self.reasoning@,
            content: self.content@,
            calls: self.ordered@,
            first_token_seen: self.first_token_seen,
            usage: self.usage,
        }
    }
}

/// What a chunk brings for the caller to pass on.
#[derive(Debug)]
pub struct ChunkReport {
    /// The reasoning and content pieces, in this order, to report.
    pub events: Vec<StreamEvent>,
    /// Whether this chunk brought the first token of the completion.
    pub first_token: bool,
    /// The usage that the chunk reports.
    pub usage: Option<Usage>,
}

pub struct DeltaView {
    pub reasoning: Option<Seq<char>>,
    pub content: Option<Seq<char>>,
    pub tool_calls: Option<Seq<ToolCallDeltaView>>,
}

pub open spec fn delta_view(d: Delta) -> DeltaView {
    DeltaView {
        reasoning: opt_view(d.reasoning),
        content: opt_view(d.content),
        tool_calls: match d.tool_calls {
            Some(v) => Some(v@.map_values(|x: ToolCallDelta| x@)),
            None => None,
        },
    }
}

pub open spec fn nonempty(o: Option<Seq<char>>) -> bool {
    o matches Some(t) && t.len() > 0
}

/// Whether the delta `d` brings a token: non-empty reasoning or content, or
/// any tool-call list.
pub open spec fn brings_token(d: DeltaView) -> bool {
    nonempty(d.reasoning) || nonempty(d.content) || d.tool_calls is Some
}

/// The events that the delta `d` brings: the reasoning, then the content,
/// each where not empty.
pub open spec fn delta_events(d: DeltaView) -> Seq<StreamEventView> {
    let r = if nonempty(d.reasoning) {
        seq![StreamEventView::Reasoning(d.reasoning->0)]
    } else {
        Seq::empty()
    };
    if nonempty(d.content) {
        r.push(StreamEventView::Content(d.content->0))
    } else {
        r
    }
}

/// The state after the delta `d`.
pub open spec fn apply_delta(a: AccumulatorView, d: DeltaView) -> AccumulatorView {
    AccumulatorView {
        reasoning: if nonempty(d.reasoning) {
            a.reasoning + d.reasoning->0
        } else {
            a.reasoning
        },
        content: if nonempty(d.content) {
            a.content + d.content->0
        } else {
            a.content
        },
        calls: match d.tool_calls {
            Some(ds) => merge_all(a.calls, ds),
            None => a.calls,
        },
        first_token_seen: a.first_token_seen || brings_token(d),
        usage: a.usage,
    }
}

/// The first choice's delta of a chunk, if it has a choice.
pub open spec fn first_delta(chunk: StreamResponse) -> Option<DeltaView> {
    if chunk.choices@.len() > 0 {
        Some(delta_view(chunk.choices@[0].delta))
    } else {
        None
    }
}

/// The state after a chunk whose first delta is `d` and which reports the
/// usage `u`.
pub open spec fn chunk_state(a: AccumulatorView, d: Option<DeltaView>, u: Option<Usage>) -> AccumulatorView {
    let b = match d {
        Some(dv) => apply_delta(a, dv),
        None => a,
    };
    AccumulatorView {
        usage: match u {
            Some(x) => Some(x),
            None => a.usage,
        },
        ..b
    }
}

/// The events that such a chunk has passed on: the reasoning and content
/// pieces, then the usage where it is reported.
pub open spec fn chunk_events(d: Option<DeltaView>, u: Option<Usage>) -> Seq<StreamEventView> {
    let pieces = match d {
        Some(dv) => delta_events(dv),
        None => Seq::empty(),
    };
    match u {
        Some(x) => pieces.push(StreamEventView::Usage(x)),
        None => pieces,
    }
}

/// One event of the stream, as read: the end marker, a data line that is
/// not a chunk, a chunk, or a failure of the transport, with its message.
#[derive(Debug)]
pub enum DataLine {
    Done,
    Unreadable,
    Chunk(StreamResponse),
    Broken(String),
}

pub enum DataLineView {
    Done,
    Unreadable,
    Chunk(Option<DeltaView>, Option<Usage>),
    Broken(Seq<char>),
}

pub open spec fn line_view(l: DataLine) -> DataLineView {
    match l {
        DataLine::Done => DataLineView::Done,
        DataLine::Unreadable => DataLineView::Unreadable,
        DataLine::Chunk(c) => DataLineView::Chunk(first_delta(c), c.usage),
        DataLine::Broken(m) => DataLineView::Broken(m@),
    }
}

/// What a data line comes to.
#[derive(Debug)]
pub enum LineOutcome {
    /// The stream is over: read no further.
    Ended,
    /// The line is passed over.
    Skipped,
    /// The chunk was taken in; its report is to be passed on.
    Applied(ChunkReport),
    /// The transport failed: pass on the error event and read no further.
    Broken(StreamEvent),
}

/// The state and the events passed on after the data lines `lines`, from the
/// state `a`: chunks are taken in order, lines that are not chunks are passed
/// over, the end marker ends the stream, and a failure of the transport ends
/// it with an error event.
pub open spec fn feed_lines(a: AccumulatorView, lines: Seq<DataLineView>) -> (AccumulatorView, Seq<StreamEventView>)
    decreases lines.len(),
{
    if lines.len() == 0 {
        (a, Seq::empty())
    } else {
        match lines[0] {
            DataLineView::Done => (a, Seq::empty()),
            DataLineView::Broken(m) => (a, seq![StreamEventView::Error(m)]),
            DataLineView::Unreadable => feed_lines(a, lines.drop_first()),
            DataLineView::Chunk(d, u) => {
                let rest = feed_lines(chunk_state(a, d, u), lines.drop_first());
                (rest.0, chunk_events(d, u) + rest.1)
            },
        }
    }
}

/// The chunks of `lines` before the first end marker or failure, followed by
/// that failure where one ended the stream.
pub open spec fn chunks_before_end(lines: Seq<DataLineView>) -> Seq<DataLineView>
    decreases lines.len(),
{
    if lines.len() == 0 {
        Seq::empty()
    } else {
        match lines[0] {
            DataLineView::Done => Seq::empty(),
            DataLineView::Broken(_) => seq![lines[0]],
            DataLineView::Unreadable => chunks_before_end(lines.drop_first()),
            DataLineView::Chunk(_, _) => seq![lines[0]] + chunks_before_end(lines.drop_first()),
        }
    }
}

/// Law: a stream gives the same completion and passes on the same events as
/// the stream of its chunks before the first end marker or failure (and that
/// failure): lines that are not chunks and whatever follows the end change
/// nothing.
pub proof fn law_stream_ignores_noise(a: AccumulatorView, lines: Seq<DataLineView>)
    ensures
        feed_lines(a, lines) == feed_lines(a, chunks_before_end(lines)),
    decreases lines.len(),
{
    if lines.len() > 0 {
        match lines[0] {
            DataLineView::Done => {},
            DataLineView::Broken(_) => {
                assert(seq![lines[0]][0] == lines[0]);
            },
            DataLineView::Unreadable => {
                law_stream_ignores_noise(a, lines.drop_first());
            },
            DataLineView::Chunk(d, u) => {
                let rest = chunks_before_end(lines.drop_first());
                let t = seq![lines[0]] + rest;
                assert(t[0] == lines[0]);
                assert(t.drop_first() =~= rest);
                law_stream_ignores_noise(chunk_state(a, d, u), lines.drop_first());
            },
        }
    }
}

/// Whether the lines `lines` go on: none is the end marker or a failure.
pub open spec fn goes_on(lines: Seq<DataLineView>) -> bool {
    forall|i: int|
        0 <= i < lines.len() ==> !(#[trigger] lines[i] is Done) && !(lines[i] is Broken)
}

/// Law: feeding two runs of lines one after the other, where the first does
/// not end the stream, is feeding the second from the state that the first
/// left, after the events of the first.
pub proof fn law_feed_in_parts(a: AccumulatorView, first: Seq<DataLineView>, second: Seq<DataLineView>)
    requires
        goes_on(first),
    ensures
        ({
            let (mid, e1) = feed_lines(a, first);
            let (last, e2) = feed_lines(mid, second);
            feed_lines(a, first + second) == (last, e1 + e2)
        }),
    decreases first.len(),
{
    if first.len() == 0 {
        assert(first + second =~= second);
    } else {
        let all = first + second;
        assert(all[0] == first[0]);
        assert(all.drop_first() =~= first.drop_first() + second);
        assert(goes_on(first.drop_first())) by {
            assert forall|i: int| 0 <= i < first.drop_first().len() implies !(
            #[trigger] first.drop_first()[i] is Done) && !(first.drop_first()[i] is Broken) by {
                assert(first.drop_first()[i] == first[i + 1]);
            }
        }
        assert(!(first[0] is Done) && !(first[0] is Broken));
        match first[0] {
            DataLineView::Chunk(d, u) => {
                law_feed_in_parts(chunk_state(a, d, u), first.drop_first(), second);
                let (mid, e1) = feed_lines(a, first);
                let (last, e2) = feed_lines(mid, second);
                let rest1 = feed_lines(chunk_state(a, d, u), first.drop_first()).1;
                assert(chunk_events(d, u) + (rest1 + e2) =~= (chunk_events(d, u) + rest1) + e2);
            },
            _ => {
                law_feed_in_parts(a, first.drop_first(), second);
            },
        }
    }
}

impl StreamAccumulator {
    /// Nothing received yet.
    pub fn new() -> (r: StreamAccumulator)
        ensures
            r.wf(),
            r@ == (AccumulatorView {
                reasoning: Seq::empty(),
                content: Seq::empty(),
                calls: Seq::empty(),
                first_token_seen: false,
                usage: None,
            }),
    {
        let r = StreamAccumulator {
            reasoning: String::new(),
            content: String::new(),
            calls: BTreeMap::new(),
            ordered: Ghost(Seq::empty()),
            first_token_seen: false,
            usage: None,
        };
        proof {
            lemma_slot(Seq::<ToolCallView>::empty(), 0);
        }
        r
    }

    /// The calls are in index order, and the map holds exactly them, each
    /// under its index.
    pub closed spec fn wf(&self) -> bool {
        &&& calls_wf(self.ordered@)
        &&& keyed_by_index(self.calls@, self.ordered@)
    }

    /// Takes in one tool-call delta.
    pub fn merge(&mut self, d: &ToolCallDelta)
        requires
            old(self).wf(),
        ensures
            final(self).wf(),
            final(self)@ == (AccumulatorView { calls: merge_delta(old(self)@.calls, d@), ..old(self)@ }),
    {
        let ghost s = self.ordered@;
        let ghost m = self.calls@;
        let k = match d.index {
            Some(i) => i,
            None => 0,
        };
        let chunk = match &d.function.arguments {
            Some(a) => a.clone(),
            None => String::new(),
        };
        let c = match self.calls.get(&k) {
            Some(old_call) => {
                let mut c = old_call.duplicate();
                let mut args = match &c.function.arguments {
                    Some(a) => a.clone(),
                    None => String::new(),
                };
                args.append(chunk.as_str());
                c.function.arguments = Some(args);
                c
            },
            None => ToolCall {
                index: Some(k),
                id: copy_opt(&d.id),
                call_type: Some(String::from_str("function")),
                function: ToolCallFunction { name: copy_opt(&d.function.name), arguments: Some(chunk) },
            },
        };
        proof {
            assert(m.contains_key(k) <==> call_at_index(s, k) is Some);
            assert(c@ == extend_call(call_at_index(s, k), d@));
        }
        self.calls.insert(k, c);
        self.ordered = Ghost(merge_delta(s, d@));
        proof {
            lemma_keyed_merge(m, s, d@, c);
        }
    }

    /// Takes in one streamed chunk: the first choice's delta, if any, and the
    /// usage, if reported.
    pub fn apply_chunk(&mut self, chunk: StreamResponse) -> (r: ChunkReport)
        requires
            old(self).wf(),
        ensures
            final(self).wf(),
            chunk.choices@.len() == 0 ==> final(self)@ == (AccumulatorView {
                usage: match chunk.usage {
                    Some(u) => Some(u),
                    None => old(self)@.usage,
                },
                ..old(self)@
            }) && r.events@.len() == 0 && !r.first_token,
            chunk.choices@.len() > 0 ==> ({
                let d = delta_view(chunk.choices@[0].delta);
                let a = apply_delta(old(self)@, d);
                &&& final(self)@ == (AccumulatorView {
                    usage: match chunk.usage {
                        Some(u) => Some(u),
                        None => old(self)@.usage,
                    },
                    ..a
                })
                &&& r.events@.map_values(|e: StreamEvent| e@) == delta_events(d)
                &&& r.first_token == (!old(self)@.first_token_seen && brings_token(d))
            }),
            r.usage == chunk.usage,
    {
        let mut events: Vec<StreamEvent> = Vec::new();
        let mut first_token = false;
        let usage = chunk.usage;
        let ghost d0 = if chunk.choices@.len() > 0 {
            delta_view(chunk.choices@[0].delta)
        } else {
            arbitrary()
        };
        let ghost old_v = self@;
        if chunk.choices.len() > 0 {
            let delta = &chunk.choices[0].delta;
            match &delta.reasoning {
                Some(t) => {
                    if t.as_str().unicode_len() > 0 {
                        if !self.first_token_seen {
                            self.first_token_seen = true;
                            first_token = true;
                        }
                        self.reasoning.append(t.as_str());
                        events.push(StreamEvent::Reasoning(t.clone()));
                    }
                },
                None => {},
            }
            match &delta.content {
                Some(t) => {
                    if t.as_str().unicode_len() > 0 {
                        if !self.first_token_seen {
                            self.first_token_seen = true;
                            first_token = true;
                        }
                        self.content.append(t.as_str());
                        events.push(StreamEvent::Content(t.clone()));
                    }
                },
                None => {},
            }
            match &delta.tool_calls {
                Some(ds) => {
                    if !self.first_token_seen {
                        self.first_token_seen = true;
                        first_token = true;
                    }
                    let ghost dv = ds@.map_values(|x: ToolCallDelta| x@);
                    let ghost base = self@.calls;
                    let mut i: usize = 0;
                    while i < ds.len()
                        invariant
                            dv == ds@.map_values(|x: ToolCallDelta| x@),
                            i <= ds.len(),
                            self.wf(),
                            self@.calls == merge_all(base, dv.take(i as int)),
                            self@.reasoning == old_v.reasoning + (if nonempty(d0.reasoning) { d0.reasoning->0 } else { Seq::empty() }),
                            self@.content == old_v.content + (if nonempty(d0.content) { d0.content->0 } else { Seq::empty() }),
                            self@.first_token_seen,
                            self@.usage == old_v.usage,
                        decreases ds.len() - i,
                    {
                        assert(dv.take(i + 1).drop_last() =~= dv.take(i as int));
                        self.merge(&ds[i]);
                        i = i + 1;
                    }
                    assert(dv.take(ds.len() as int) =~= dv);
                },
                None => {},
            }
        }
        match usage {
            Some(u) => {
                self.usage = Some(u);
            },
            None => {},
        }
        proof {
            if chunk.choices@.len() > 0 {
                assert(self@.reasoning =~= apply_delta(old_v, d0).reasoning);
                assert(self@.content =~= apply_delta(old_v, d0).content);
                assert(events@.map_values(|e: StreamEvent| e@) =~= delta_events(d0));
            } else {
                assert(self@.reasoning =~= old_v.reasoning);
            }
        }
        ChunkReport { events, first_token, usage }
    }

    /// Takes in one data line of the stream: the end marker ends it, a line
    /// that is not a chunk is passed over, a chunk is taken in.
    pub fn take_line(&mut self, line: DataLine) -> (r: LineOutcome)
        requires
            old(self).wf(),
        ensures
            final(self).wf(),
            match line_view(line) {
                DataLineView::Done => r is Ended && final(self)@ == old(self)@,
                DataLineView::Unreadable => r is Skipped && final(self)@ == old(self)@,
                DataLineView::Broken(m) => {
                    &&& final(self)@ == old(self)@
                    &&& r matches LineOutcome::Broken(e)
                    &&& e@ == StreamEventView::Error(m)
                },
                DataLineView::Chunk(d, u) => {
                    &&& final(self)@ == chunk_state(old(self)@, d, u)
                    &&& r matches LineOutcome::Applied(rep)
                    &&& rep.events@.map_values(|e: StreamEvent| e@) + match rep.usage {
                        Some(x) => seq![StreamEventView::Usage(x)],
                        None => Seq::empty(),
                    } == chunk_events(d, u)
                    &&& rep.first_token == (!old(self)@.first_token_seen && (d matches Some(dv)
                        && brings_token(dv)))
                },
            },
    {
        match line {
            DataLine::Done => LineOutcome::Ended,
            DataLine::Unreadable => LineOutcome::Skipped,
            DataLine::Broken(m) => LineOutcome::Broken(StreamEvent::Error(m)),
            DataLine::Chunk(c) => {
                let ghost old_v = self@;
                let ghost d = first_delta(c);
                let ghost u = c.usage;
                let rep = self.apply_chunk(c);
                proof {
                    let evs = rep.events@.map_values(|e: StreamEvent| e@);
                    if d is None {
                        assert(evs =~= Seq::<StreamEventView>::empty());
                    }
                    match u {
                        Some(x) => {
                            assert(evs + seq![StreamEventView::Usage(x)] =~= chunk_events(d, u));
                        },
                        None => {
                            assert(evs + Seq::<StreamEventView>::empty() =~= chunk_events(d, u));
                        },
                    }
                }
                LineOutcome::Applied(rep)
            },
        }
    }

    /// The completion received: the reasoning, the content, the tool calls in
    /// index order, and the last usage reported.
    pub fn finish(self) -> (r: GenerationResult)
        requires
            self.wf(),
        ensures
            r@.reasoning == self@.reasoning,
            r@.content == self@.content,
            r@.tool_calls == self@.calls,
            r@.usage == self@.usage,
    {
        let ghost s = self.ordered@;
        let ghost m = self.calls@;
        let mut out: Vec<ToolCall> = Vec::new();
        let values = self.calls.values();
        let ghost keys = choose|ks: Seq<u32>|
            {
                &&& increasing_seq(ks)
                &&& ks.to_set() == m.dom()
                &&& ks.no_duplicates()
                &&& IteratorSpec::remaining(&values) == ks.map(|i: int, k: u32| &m[k])
            };
        proof {
            lemma_keyed_order(m, s, keys);
        }
        for v in it: values
            invariant
                keys.len() == s.len(),
                it.seq() == keys.map(|i: int, k: u32| &m[k]),
                forall|i: int| 0 <= i < s.len() ==> #[trigger] m[keys[i]]@ == s[i],
                out@.len() == it.index(),
                forall|i: int| 0 <= i < it.index() ==> (#[trigger] out@[i])@ == s[i],
        {
            out.push(v.duplicate());
        }
        assert(calls_view(out@) =~= s);
        GenerationResult {
            reasoning: self.reasoning,
            content: self.content,
            tool_calls: out,
            usage: self.usage,
        }
    }
}

/// Whether a server-sent event's data marks the end of the stream.
pub fn is_done_marker(data: &str) -> (r: bool)
    ensures
        r == (data@ == "[DONE]"@),
{
    same_text(data, "[DONE]")
}

/// The content piece that a chunk's first delta brings, empty where none.
pub open spec fn content_piece(d: Option<DeltaView>) -> Seq<char> {
    match d {
        Some(dv) => if nonempty(dv.content) {
            dv.content->0
        } else {
            Seq::empty()
        },
        None => Seq::empty(),
    }
}

/// The reasoning piece that a chunk's first delta brings, empty where none.
pub open spec fn reasoning_piece(d: Option<DeltaView>) -> Seq<char> {
    match d {
        Some(dv) => if nonempty(dv.reasoning) {
            dv.reasoning->0
        } else {
            Seq::empty()
        },
        None => Seq::empty(),
    }
}

/// The content pieces of the chunks of `lines` before the stream ends,
/// joined in arrival order.
pub open spec fn content_pieces(lines: Seq<DataLineView>) -> Seq<char>
    decreases lines.len(),
{
    if lines.len() == 0 {
        Seq::empty()
    } else {
        match lines[0] {
            DataLineView::Chunk(d, _) => content_piece(d) + content_pieces(lines.drop_first()),
            DataLineView::Unreadable => content_pieces(lines.drop_first()),
            _ => Seq::empty(),
        }
    }
}

/// The reasoning pieces of the chunks of `lines` before the stream ends,
/// joined in arrival order.
pub open spec fn reasoning_pieces(lines: Seq<DataLineView>) -> Seq<char>
    decreases lines.len(),
{
    if lines.len() == 0 {
        Seq::empty()
    } else {
        match lines[0] {
            DataLineView::Chunk(d, _) => reasoning_piece(d) + reasoning_pieces(lines.drop_first()),
            DataLineView::Unreadable => reasoning_pieces(lines.drop_first()),
            _ => Seq::empty(),
        }
    }
}

/// Law: a chunk adds its content and reasoning pieces after what came before;
/// nothing that came before is lost or replaced.
pub proof fn law_chunk_appends(a: AccumulatorView, d: Option<DeltaView>, u: Option<Usage>)
    ensures
        chunk_state(a, d, u).content == a.content + content_piece(d),
        chunk_state(a, d, u).reasoning == a.reasoning + reasoning_piece(d),
{
    assert(a.content + Seq::<char>::empty() =~= a.content);
    assert(a.reasoning + Seq::<char>::empty() =~= a.reasoning);
}

/// Law: a stream leaves as content what it started with followed by every
/// content piece of its chunks, in arrival order, and likewise the reasoning.
pub proof fn law_stream_concatenates(a: AccumulatorView, lines: Seq<DataLineView>)
    ensures
        feed_lines(a, lines).0.content == a.content + content_pieces(lines),
        feed_lines(a, lines).0.reasoning == a.reasoning + reasoning_pieces(lines),
    decreases lines.len(),
{
    if lines.len() == 0 {
        assert(a.content + Seq::<char>::empty() =~= a.content);
        assert(a.reasoning + Seq::<char>::empty() =~= a.reasoning);
    } else {
        match lines[0] {
            DataLineView::Chunk(d, u) => {
                let b = chunk_state(a, d, u);
                law_chunk_appends(a, d, u);
                law_stream_concatenates(b, lines.drop_first());
                assert(a.content + (content_piece(d) + content_pieces(lines.drop_first())) =~= (
                a.content + content_piece(d)) + content_pieces(lines.drop_first()));
                assert(a.reasoning + (reasoning_piece(d) + reasoning_pieces(lines.drop_first()))
                    =~= (a.reasoning + reasoning_piece(d)) + reasoning_pieces(lines.drop_first()));
            },
            DataLineView::Unreadable => {
                law_stream_concatenates(a, lines.drop_first());
            },
            _ => {
                assert(a.content + Seq::<char>::empty() =~= a.content);
                assert(a.reasoning + Seq::<char>::empty() =~= a.reasoning);
            },
        }
    }
}

} // verus!
