//! The stream normalizer: a stateful, per-event translation of the vendor's
//! streamed response events into canonical completion events.
//!
//! Tool-call arguments arrive as fragments keyed by a vendor-assigned
//! integer index; a [`StreamNormalizer`] accumulates them (ids and names
//! replace, argument text appends) and drains the accumulator into
//! [`CompletionEvent::ToolUse`] events when a `tool_calls` finish reason
//! arrives. Every step is specified by [`spec_process`].

use crate::json::{json_parsed, parse_json};
use vstd::prelude::*;

verus! {

// ---------------------------------------------------------------------------
// Vendor response events (input)
// ---------------------------------------------------------------------------

pub open spec fn opt_text_view(o: Option<String>) -> Option<Seq<char>> {
    match o {
        Some(s) => Some(s@),
        None => None,
    }
}

/// The function part of one tool-call fragment: an optional name and an
/// optional argument-text fragment.
#[derive(Clone, Debug, PartialEq)]
pub struct FunctionChunk {
    pub name: Option<String>,
    pub arguments: Option<String>,
}

#[verifier::ext_equal]
pub struct FunctionChunkView {
    pub name: Option<Seq<char>>,
    pub arguments: Option<Seq<char>>,
}

impl View for FunctionChunk {
    type V = FunctionChunkView;

    open spec fn view(&self) -> FunctionChunkView {
        FunctionChunkView {
            name: opt_text_view(self.name),
            arguments: opt_text_view(self.arguments),
        }
    }
}

/// One tool-call fragment of a delta, keyed by the vendor-assigned index.
#[derive(Clone, Debug, PartialEq)]
pub struct ToolCallChunk {
    pub index: usize,
    pub id: Option<String>,
    pub function: Option<FunctionChunk>,
}

#[verifier::ext_equal]
pub struct ToolCallChunkView {
    pub index: int,
    pub id: Option<Seq<char>>,
    pub function: Option<FunctionChunkView>,
}

impl View for ToolCallChunk {
    type V = ToolCallChunkView;

    open spec fn view(&self) -> ToolCallChunkView {
        ToolCallChunkView {
            index: self.index as int,
            id: opt_text_view(self.id),
            function: match self.function {
                Some(f) => Some(f@),
                None => None,
            },
        }
    }
}

pub open spec fn chunks_view(v: Seq<ToolCallChunk>) -> Seq<ToolCallChunkView> {
    v.map_values(|c: ToolCallChunk| c@)
}

/// One increment of an in-progress response: optional text and zero or more
/// tool-call fragments. In non-streaming mode the complete message arrives
/// in this same shape.
#[derive(Clone, Debug, PartialEq)]
pub struct ResponseDelta {
    pub content: Option<String>,
    pub tool_calls: Vec<ToolCallChunk>,
}

#[verifier::ext_equal]
pub struct ResponseDeltaView {
    pub content: Option<Seq<char>>,
    pub tool_calls: Seq<ToolCallChunkView>,
}

impl View for ResponseDelta {
    type V = ResponseDeltaView;

    open spec fn view(&self) -> ResponseDeltaView {
        ResponseDeltaView {
            content: opt_text_view(self.content),
            tool_calls: chunks_view(self.tool_calls@),
        }
    }
}

/// One candidate completion within a response event.
#[derive(Clone, Debug, PartialEq)]
pub struct ResponseChoice {
    pub delta: Option<ResponseDelta>,
    pub message: Option<ResponseDelta>,
    pub finish_reason: Option<String>,
}

#[verifier::ext_equal]
pub struct ResponseChoiceView {
    pub delta: Option<ResponseDeltaView>,
    pub message: Option<ResponseDeltaView>,
    pub finish_reason: Option<Seq<char>>,
}

impl View for ResponseChoice {
    type V = ResponseChoiceView;

    open spec fn view(&self) -> ResponseChoiceView {
        ResponseChoiceView {
            delta: match self.delta {
                Some(d) => Some(d@),
                None => None,
            },
            message: match self.message {
                Some(d) => Some(d@),
                None => None,
            },
            finish_reason: opt_text_view(self.finish_reason),
        }
    }
}

/// One decoded response event of the vendor's stream.
#[derive(Clone, Debug, PartialEq)]
pub struct ResponseEvent {
    pub choices: Vec<ResponseChoice>,
}

#[verifier::ext_equal]
pub struct ResponseEventView {
    pub choices: Seq<ResponseChoiceView>,
}

impl View for ResponseEvent {
    type V = ResponseEventView;

    open spec fn view(&self) -> ResponseEventView {
        ResponseEventView { choices: self.choices@.map_values(|c: ResponseChoice| c@) }
    }
}

// ---------------------------------------------------------------------------
// Canonical completion events (output)
// ---------------------------------------------------------------------------

/// Why a choice stopped.
#[derive(Clone, Copy, Debug, PartialEq, Eq, Structural)]
pub enum StopReason {
    EndTurn,
    ToolUse,
}

/// One fully reassembled tool call.
#[derive(Clone, Debug, PartialEq)]
pub struct ToolUseEvent {
    pub id: String,
    pub name: String,
    /// The parsed argument value.
    pub input: serde_json::Value,
    /// The argument text exactly as accumulated from the stream.
    pub raw_input: String,
    /// Always true: a tool-use event is only emitted once its arguments are
    /// complete.
    pub is_input_complete: bool,
}

#[verifier::ext_equal]
pub struct ToolUseEventView {
    pub id: Seq<char>,
    pub name: Seq<char>,
    pub input: serde_json::Value,
    pub raw_input: Seq<char>,
    pub is_input_complete: bool,
}

impl View for ToolUseEvent {
    type V = ToolUseEventView;

    open spec fn view(&self) -> ToolUseEventView {
        ToolUseEventView {
            id: self.id@,
            name: self.name@,
            input: self.input,
            raw_input: self.raw_input@,
            is_input_complete: self.is_input_complete,
        }
    }
}

/// One canonical completion event.
#[derive(Clone, Debug, PartialEq)]
pub enum CompletionEvent {
    Text(String),
    ToolUse(ToolUseEvent),
    Stop(StopReason),
}

#[verifier::ext_equal]
pub enum CompletionEventView {
    Text(Seq<char>),
    ToolUse(ToolUseEventView),
    Stop(StopReason),
}

impl View for CompletionEvent {
    type V = CompletionEventView;

    open spec fn view(&self) -> CompletionEventView {
        match self {
            CompletionEvent::Text(t) => CompletionEventView::Text(t@),
            CompletionEvent::ToolUse(t) => CompletionEventView::ToolUse(t@),
            CompletionEvent::Stop(s) => CompletionEventView::Stop(*s),
        }
    }
}

/// A normalization failure, delivered in-band so the caller decides
/// per-event whether to abort.
#[derive(Clone, Debug, PartialEq)]
pub enum NormalizeError {
    /// The event carried no choice.
    MissingChoice,
    /// The selected choice carried no delta (or, in non-streaming mode, no
    /// message).
    MissingDelta,
    /// A drained tool call's accumulated arguments are not valid JSON.
    ToolArgumentParse { id: String, tool_name: String, raw_input: String, detail: String },
    /// The vendor transport failed; the sequence ends after this error.
    Transport { detail: String },
}

#[verifier::ext_equal]
pub enum NormalizeErrorView {
    MissingChoice,
    MissingDelta,
    ToolArgumentParse { id: Seq<char>, tool_name: Seq<char>, raw_input: Seq<char>, detail: Seq<char> },
    Transport { detail: Seq<char> },
}

impl View for NormalizeError {
    type V = NormalizeErrorView;

    open spec fn view(&self) -> NormalizeErrorView {
        match self {
            NormalizeError::MissingChoice => NormalizeErrorView::MissingChoice,
            NormalizeError::MissingDelta => NormalizeErrorView::MissingDelta,
            NormalizeError::ToolArgumentParse { id, tool_name, raw_input, detail } =>
                NormalizeErrorView::ToolArgumentParse {
                    id: id@,
                    tool_name: tool_name@,
                    raw_input: raw_input@,
                    detail: detail@,
                },
            NormalizeError::Transport { detail } => NormalizeErrorView::Transport { detail: detail@ },
        }
    }
}

pub open spec fn out_view(r: Result<CompletionEvent, NormalizeError>) -> Result<
    CompletionEventView,
    NormalizeErrorView,
> {
    match r {
        Ok(e) => Ok(e@),
        Err(e) => Err(e@),
    }
}

pub open spec fn outs_view(v: Seq<Result<CompletionEvent, NormalizeError>>) -> Seq<
    Result<CompletionEventView, NormalizeErrorView>,
> {
    v.map_values(|r: Result<CompletionEvent, NormalizeError>| out_view(r))
}

// ---------------------------------------------------------------------------
// The accumulator
// ---------------------------------------------------------------------------

/// One tool call under reassembly: the vendor index it is keyed by, the
/// last id and name seen, and the append-only argument buffer.
#[derive(Clone, Debug, PartialEq)]
pub struct ToolCallBuilder {
    pub index: usize,
    pub id: String,
    pub name: String,
    pub arguments: String,
}

#[verifier::ext_equal]
pub struct ToolCallBuilderView {
    pub index: int,
    pub id: Seq<char>,
    pub name: Seq<char>,
    pub arguments: Seq<char>,
}

impl View for ToolCallBuilder {
    type V = ToolCallBuilderView;

    open spec fn view(&self) -> ToolCallBuilderView {
        ToolCallBuilderView {
            index: self.index as int,
            id: self.id@,
            name: self.name@,
            arguments: self.arguments@,
        }
    }
}

pub open spec fn builders_view(v: Seq<ToolCallBuilder>) -> Seq<ToolCallBuilderView> {
    v.map_values(|b: ToolCallBuilder| b@)
}

/// The accumulator entry a fragment starts from when its index is new.
pub open spec fn fresh_builder(index: int) -> ToolCallBuilderView {
    ToolCallBuilderView {
        index,
        id: Seq::empty(),
        name: Seq::empty(),
        arguments: Seq::empty(),
    }
}

/// One fragment folded into one entry: an incoming id replaces the stored
/// id, an incoming name replaces the stored name, incoming argument text is
/// appended to the stored buffer.
pub open spec fn updated_builder(b: ToolCallBuilderView, c: ToolCallChunkView) -> ToolCallBuilderView {
    ToolCallBuilderView {
        index: b.index,
        id: match c.id {
            Some(s) => s,
            None => b.id,
        },
        name: match c.function {
            Some(f) => match f.name {
                Some(n) => n,
                None => b.name,
            },
            None => b.name,
        },
        arguments: b.arguments + (match c.function {
            Some(f) => match f.arguments {
                Some(a) => a,
                None => Seq::empty(),
            },
            None => Seq::empty(),
        }),
    }
}

/// Where the entry for an index sits: the position of its first occurrence,
/// or the sequence's length when it has no entry yet.
pub open spec fn builder_position(pending: Seq<ToolCallBuilderView>, index: int) -> int
    decreases pending.len(),
{
    if pending.len() == 0 {
        0
    } else if pending[0].index == index {
        0
    } else {
        1 + builder_position(pending.drop_first(), index)
    }
}

/// One fragment folded into the accumulator: fetch-or-create the entry at
/// the fragment's index, then update it.
pub open spec fn apply_chunk(
    pending: Seq<ToolCallBuilderView>,
    c: ToolCallChunkView,
) -> Seq<ToolCallBuilderView> {
    let pos = builder_position(pending, c.index);
    if pos < pending.len() {
        pending.update(pos, updated_builder(pending[pos], c))
    } else {
        pending.push(updated_builder(fresh_builder(c.index), c))
    }
}

/// A delta's fragments folded into the accumulator, in arrival order.
pub open spec fn apply_chunks(
    pending: Seq<ToolCallBuilderView>,
    cs: Seq<ToolCallChunkView>,
) -> Seq<ToolCallBuilderView>
    decreases cs.len(),
{
    if cs.len() == 0 {
        pending
    } else {
        apply_chunk(apply_chunks(pending, cs.drop_last()), cs.last())
    }
}

// ---------------------------------------------------------------------------
// Draining
// ---------------------------------------------------------------------------

/// What draining one entry yields: an empty argument buffer parses as the
/// empty JSON object (a normal no-parameters call, not an error); a buffer
/// that is not valid JSON yields a structured parse error carrying the raw
/// text; a valid buffer yields the finished tool-use event.
pub open spec fn drain_entry(b: ToolCallBuilderView) -> Result<
    CompletionEventView,
    NormalizeErrorView,
> {
    let text = if b.arguments.len() == 0 {
        "{}"@
    } else {
        b.arguments
    };
    match json_parsed(text) {
        Ok(v) => Ok(
            CompletionEventView::ToolUse(
                ToolUseEventView {
                    id: b.id,
                    name: b.name,
                    input: v,
                    raw_input: b.arguments,
                    is_input_complete: true,
                },
            ),
        ),
        Err(m) => Err(
            NormalizeErrorView::ToolArgumentParse {
                id: b.id,
                tool_name: b.name,
                raw_input: b.arguments,
                detail: m,
            },
        ),
    }
}

/// Draining the whole accumulator, in entry order.
pub open spec fn drain_events(pending: Seq<ToolCallBuilderView>) -> Seq<
    Result<CompletionEventView, NormalizeErrorView>,
> {
    Seq::new(pending.len(), |i: int| drain_entry(pending[i]))
}

// ---------------------------------------------------------------------------
// The normalizer
// ---------------------------------------------------------------------------

/// Per-completion-call normalizer state: one accumulator per call, never
/// shared. `last_unexpected_finish` records, for diagnostics, the most
/// recent finish reason that was neither `stop` nor `tool_calls`.
#[derive(Clone, Debug, PartialEq)]
pub struct StreamNormalizer {
    pub is_streaming: bool,
    pub pending: Vec<ToolCallBuilder>,
    pub last_unexpected_finish: Option<String>,
}

#[verifier::ext_equal]
pub struct NormalizerView {
    pub is_streaming: bool,
    pub pending: Seq<ToolCallBuilderView>,
    pub last_unexpected_finish: Option<Seq<char>>,
}

impl View for StreamNormalizer {
    type V = NormalizerView;

    open spec fn view(&self) -> NormalizerView {
        NormalizerView {
            is_streaming: self.is_streaming,
            pending: builders_view(self.pending@),
            last_unexpected_finish: opt_text_view(self.last_unexpected_finish),
        }
    }
}

/// The delta an event's first choice selects: the incremental delta in
/// streaming mode, the complete message otherwise, through the same path.
pub open spec fn selected_delta(st: NormalizerView, choice: ResponseChoiceView) -> Option<
    ResponseDeltaView,
> {
    if st.is_streaming {
        choice.delta
    } else {
        choice.message
    }
}

/// What processing one vendor event does to the normalizer and emits, in
/// order: a missing choice or delta is one in-band error; text is emitted
/// immediately, never buffered; tool-call fragments are folded into the
/// accumulator; a `stop` finish emits Stop(EndTurn); a `tool_calls` finish
/// drains the accumulator and emits Stop(ToolUse); any other finish reason
/// is recorded as unexpected and conservatively emits Stop(EndTurn).
pub open spec fn spec_process(st: NormalizerView, ev: ResponseEventView) -> (
    NormalizerView,
    Seq<Result<CompletionEventView, NormalizeErrorView>>,
) {
    if ev.choices.len() == 0 {
        (st, seq![Err(NormalizeErrorView::MissingChoice)])
    } else {
        let choice = ev.choices[0];
        match selected_delta(st, choice) {
            None => (st, seq![Err(NormalizeErrorView::MissingDelta)]),
            Some(d) => {
                let text_events: Seq<Result<CompletionEventView, NormalizeErrorView>> = match d
                    .content {
                    Some(t) => seq![Ok(CompletionEventView::Text(t))],
                    None => Seq::empty(),
                };
                let pending2 = apply_chunks(st.pending, d.tool_calls);
                match choice.finish_reason {
                    Some(reason) => {
                        if reason == "stop"@ {
                            (
                                NormalizerView { pending: pending2, ..st },
                                text_events + seq![
                                    Ok(CompletionEventView::Stop(StopReason::EndTurn)),
                                ],
                            )
                        } else if reason == "tool_calls"@ {
                            (
                                NormalizerView { pending: Seq::empty(), ..st },
                                text_events + drain_events(pending2) + seq![
                                    Ok(CompletionEventView::Stop(StopReason::ToolUse)),
                                ],
                            )
                        } else {
                            (
                                NormalizerView {
                                    pending: pending2,
                                    last_unexpected_finish: Some(reason),
                                    ..st
                                },
                                text_events + seq![
                                    Ok(CompletionEventView::Stop(StopReason::EndTurn)),
                                ],
                            )
                        }
                    },
                    None => (NormalizerView { pending: pending2, ..st }, text_events),
                }
            },
        }
    }
}

/// The first matching position characterizes `builder_position`.
proof fn lemma_builder_position_found(pen: Seq<ToolCallBuilderView>, index: int, j: int)
    requires
        0 <= j < pen.len(),
        pen[j].index == index,
        forall|x: int| 0 <= x < j ==> (#[trigger] pen[x]).index != index,
    ensures
        builder_position(pen, index) == j,
    decreases pen.len(),
{
    if j > 0 {
        assert(pen.drop_first()[j - 1] == pen[j]);
        assert forall|x: int| 0 <= x < j - 1 implies (#[trigger] pen.drop_first()[x]).index
            != index by {
            assert(pen.drop_first()[x] == pen[x + 1]);
        }
        lemma_builder_position_found(pen.drop_first(), index, j - 1);
    }
}

/// With no matching entry, `builder_position` is the sequence's length.
proof fn lemma_builder_position_absent(pen: Seq<ToolCallBuilderView>, index: int)
    requires
        forall|x: int| 0 <= x < pen.len() ==> (#[trigger] pen[x]).index != index,
    ensures
        builder_position(pen, index) == pen.len(),
    decreases pen.len(),
{
    if pen.len() > 0 {
        assert forall|x: int| 0 <= x < pen.drop_first().len() implies (#[trigger] pen.drop_first()[x]).index
            != index by {
            assert(pen.drop_first()[x] == pen[x + 1]);
        }
        lemma_builder_position_absent(pen.drop_first(), index);
    }
}

/// Fold one fragment into one accumulator entry: the id and name replace,
/// the argument text appends.
fn apply_chunk_to(e: &mut ToolCallBuilder, chunk: &ToolCallChunk)
    ensures
        final(e)@ == updated_builder(old(e)@, chunk@),
{
    if let Some(idv) = &chunk.id {
        e.id = idv.clone();
    }
    if let Some(f) = &chunk.function {
        if let Some(n) = &f.name {
            e.name = n.clone();
        }
        if let Some(a) = &f.arguments {
            e.arguments.append(a.as_str());
        }
    }
    assert(e@ =~= updated_builder(old(e)@, chunk@));
}

impl StreamNormalizer {
    /// A fresh normalizer for one completion call: an empty accumulator, in
    /// the given delivery mode.
    pub fn new(is_streaming: bool) -> (r: Self)
        ensures
            r@ == (NormalizerView {
                is_streaming,
                pending: Seq::<ToolCallBuilderView>::empty(),
                last_unexpected_finish: None,
            }),
    {
        let r = StreamNormalizer { is_streaming, pending: Vec::new(), last_unexpected_finish: None };
        proof {
            assert(builders_view(r.pending@) =~= Seq::<ToolCallBuilderView>::empty());
        }
        r
    }

    /// Process one decoded vendor event, strictly in arrival order, and
    /// return the canonical events (or in-band errors) it gives rise to,
    /// exactly as [`spec_process`] says.
    pub fn process_event(&mut self, event: &ResponseEvent) -> (r: Vec<
        Result<CompletionEvent, NormalizeError>,
    >)
        ensures
            final(self)@ == spec_process(old(self)@, event@).0,
            outs_view(r@) == spec_process(old(self)@, event@).1,
    {
        let ghost st0 = self@;
        let mut out: Vec<Result<CompletionEvent, NormalizeError>> = Vec::new();
        if event.choices.len() == 0 {
            out.push(Err(NormalizeError::MissingChoice));
            assert(outs_view(out@) =~= spec_process(st0, event@).1);
            return out;
        }
        let choice = &event.choices[0];
        proof {
            assert(choice@ == event@.choices[0]);
        }
        let delta_opt = if self.is_streaming {
            &choice.delta
        } else {
            &choice.message
        };
        let delta = match delta_opt {
            Some(d) => d,
            None => {
                out.push(Err(NormalizeError::MissingDelta));
                assert(outs_view(out@) =~= spec_process(st0, event@).1);
                return out;
            },
        };
        let ghost dv = delta@;
        proof {
            assert(selected_delta(st0, choice@) == Some(dv));
        }
        if let Some(text) = &delta.content {
            out.push(Ok(CompletionEvent::Text(text.clone())));
        }
        let ghost text_events = outs_view(out@);
        proof {
            assert(text_events =~= (match dv.content {
                Some(t) => seq![
                    Ok::<CompletionEventView, NormalizeErrorView>(CompletionEventView::Text(t)),
                ],
                None => Seq::empty(),
            }));
            assert(chunks_view(delta.tool_calls@).take(0) =~= Seq::<ToolCallChunkView>::empty());
        }
        let mut ci: usize = 0;
        while ci < delta.tool_calls.len()
            invariant
                ci <= delta.tool_calls@.len(),
                dv == delta@,
                st0.is_streaming == self.is_streaming,
                self@.last_unexpected_finish == st0.last_unexpected_finish,
                builders_view(self.pending@) == apply_chunks(
                    st0.pending,
                    dv.tool_calls.take(ci as int),
                ),
            decreases delta.tool_calls@.len() - ci,
        {
            proof {
                assert(dv.tool_calls.take(ci as int + 1).drop_last() =~= dv.tool_calls.take(
                    ci as int,
                ));
                assert(dv.tool_calls.take(ci as int + 1).last() == dv.tool_calls[ci as int]);
            }
            let chunk = &delta.tool_calls[ci];
            proof {
                assert(chunk@ == dv.tool_calls[ci as int]);
            }
            let ghost pen = builders_view(self.pending@);
            let mut j: usize = 0;
            let mut found = false;
            while j < self.pending.len() && !found
                invariant
                    j <= self.pending@.len(),
                    pen == builders_view(self.pending@),
                    found ==> j < self.pending@.len() && pen[j as int].index == chunk@.index,
                    forall|x: int| 0 <= x < j ==> (#[trigger] pen[x]).index != chunk@.index,
                decreases self.pending@.len() - j + (if found { 0int } else { 1int }),
            {
                if self.pending[j].index == chunk.index {
                    found = true;
                } else {
                    j = j + 1;
                }
            }
            if found {
                proof {
                    lemma_builder_position_found(pen, chunk@.index, j as int);
                }
                let mut e = self.pending.remove(j);
                apply_chunk_to(&mut e, chunk);
                self.pending.insert(j, e);
                proof {
                    assert(builders_view(self.pending@) =~= apply_chunk(pen, chunk@));
                }
            } else {
                proof {
                    lemma_builder_position_absent(pen, chunk@.index);
                }
                let mut e = ToolCallBuilder {
                    index: chunk.index,
                    id: String::new(),
                    name: String::new(),
                    arguments: String::new(),
                };
                proof {
                    assert(e@ =~= fresh_builder(chunk@.index));
                }
                apply_chunk_to(&mut e, chunk);
                self.pending.push(e);
                proof {
                    assert(builders_view(self.pending@) =~= apply_chunk(pen, chunk@));
                }
            }
            assert(builders_view(self.pending@) == apply_chunks(
                st0.pending,
                dv.tool_calls.take(ci as int + 1),
            ));
            ci = ci + 1;
        }
        proof {
            assert(dv.tool_calls.take(dv.tool_calls.len() as int) =~= dv.tool_calls);
        }
        let ghost pending2 = apply_chunks(st0.pending, dv.tool_calls);
        match &choice.finish_reason {
            Some(reason) => {
                let stop_kw = String::from_str("stop");
                let tool_calls_kw = String::from_str("tool_calls");
                if reason.eq(&stop_kw) {
                    out.push(Ok(CompletionEvent::Stop(StopReason::EndTurn)));
                    assert(outs_view(out@) =~= spec_process(st0, event@).1);
                } else if reason.eq(&tool_calls_kw) {
                    let ghost base = outs_view(out@);
                    proof {
                        assert(pending2.take(0) =~= Seq::<ToolCallBuilderView>::empty());
                        assert(base + drain_events(pending2.take(0)) =~= base);
                        assert(builders_view(self.pending@) =~= pending2.skip(0));
                    }
                    while self.pending.len() > 0
                        invariant
                            builders_view(self.pending@) == pending2.skip(
                                pending2.len() - self.pending@.len(),
                            ),
                            self.pending@.len() <= pending2.len(),
                            self.is_streaming == st0.is_streaming,
                            self@.last_unexpected_finish == st0.last_unexpected_finish,
                            outs_view(out@) == base + drain_events(
                                pending2.take(pending2.len() - self.pending@.len()),
                            ),
                        decreases self.pending@.len(),
                    {
                        let ghost k = pending2.len() - self.pending@.len();
                        proof {
                            assert(outs_view(out@) == base + drain_events(pending2.take(k)));
                            assert(outs_view(out@).len() == out@.len());
                            assert((base + drain_events(pending2.take(k))).len() == base.len()
                                + k);
                            assert(out@.len() == base.len() + k);
                        }
                        let ghost before = self.pending@;
                        let e = self.pending.remove(0);
                        proof {
                            before.remove_ensures(0);
                            assert(e@ == pending2.skip(k)[0]);
                            assert(e@ == pending2[k]);
                            assert forall|x: int| 0 <= x < self.pending@.len() implies
                                builders_view(self.pending@)[x] == pending2.skip(k + 1)[x] by {
                                assert(self.pending@[x] == before[x + 1]);
                                assert(builders_view(before)[x + 1] == before[x + 1]@);
                                assert(pending2.skip(k)[x + 1] == pending2[k + x + 1]);
                                assert(pending2.skip(k + 1)[x] == pending2[k + 1 + x]);
                            }
                            assert(builders_view(self.pending@) =~= pending2.skip(k + 1));
                            assert(pending2.take(k + 1).drop_last() =~= pending2.take(k));
                            assert(pending2.take(k + 1).last() == pending2[k]);
                        }
                        let ghost textg: Seq<char> = if pending2[k].arguments.len() == 0 {
                            "{}"@
                        } else {
                            pending2[k].arguments
                        };
                        let parsed = if e.arguments.as_str().is_empty() {
                            parse_json("{}")
                        } else {
                            parse_json(e.arguments.as_str())
                        };
                        proof {
                            assert(parsed is Ok <==> json_parsed(textg) is Ok);
                        }
                        match parsed {
                            Ok(input) => {
                                proof {
                                    assert(input == json_parsed(textg)->Ok_0);
                                    assert(drain_entry(pending2[k]) is Ok);
                                }
                                let ev = CompletionEvent::ToolUse(
                                    ToolUseEvent {
                                        id: e.id,
                                        name: e.name,
                                        input,
                                        raw_input: e.arguments,
                                        is_input_complete: true,
                                    },
                                );
                                proof {
                                    assert(ev@ =~~= drain_entry(pending2[k])->Ok_0);
                                }
                                out.push(Ok(ev));
                            },
                            Err(detail) => {
                                proof {
                                    assert(detail@ == json_parsed(textg)->Err_0);
                                    assert(drain_entry(pending2[k]) is Err);
                                }
                                let ne = NormalizeError::ToolArgumentParse {
                                    id: e.id,
                                    tool_name: e.name,
                                    raw_input: e.arguments,
                                    detail,
                                };
                                proof {
                                    assert(ne@ =~~= drain_entry(pending2[k])->Err_0);
                                }
                                out.push(Err(ne));
                            },
                        }
                        proof {
                            let ghost lhs = outs_view(out@);
                            let ghost rhs = base + drain_events(pending2.take(k + 1));
                            assert(drain_events(pending2.take(k)).len() == k);
                            assert(drain_events(pending2.take(k + 1)).len() == k + 1);
                            assert(base.len() + k == out@.len() - 1);
                            assert(lhs.len() == rhs.len());
                            assert forall|x: int| 0 <= x < lhs.len() implies lhs[x] == rhs[x] by {
                                if x < base.len() + k {
                                    assert(lhs[x] == (base + drain_events(pending2.take(k)))[x]);
                                    if x >= base.len() {
                                        assert(pending2.take(k)[x - base.len()] == pending2[x
                                            - base.len()]);
                                        assert(pending2.take(k + 1)[x - base.len()] == pending2[x
                                            - base.len()]);
                                    }
                                } else {
                                    assert(x == base.len() + k);
                                    assert(lhs[x] == out_view(out@[x]));
                                    assert(rhs[x] == drain_entry(pending2[k]));
                                }
                            }
                            assert(outs_view(out@) =~= base + drain_events(pending2.take(k + 1)));
                        }
                    }
                    proof {
                        assert(pending2.take(pending2.len() as int) =~= pending2);
                        assert(builders_view(self.pending@) =~= Seq::<ToolCallBuilderView>::empty());
                    }
                    out.push(Ok(CompletionEvent::Stop(StopReason::ToolUse)));
                    assert(outs_view(out@) =~= spec_process(st0, event@).1);
                } else {
                    self.last_unexpected_finish = Some(reason.clone());
                    out.push(Ok(CompletionEvent::Stop(StopReason::EndTurn)));
                    assert(outs_view(out@) =~= spec_process(st0, event@).1);
                }
            },
            None => {
                assert(outs_view(out@) =~= spec_process(st0, event@).1);
            },
        }
        assert(self@ =~~= spec_process(st0, event@).0);
        out
    }
}

// ---------------------------------------------------------------------------
// Laws
// ---------------------------------------------------------------------------

/// Stop mapping: an event whose first choice carries no text and finishes
/// with `stop` yields exactly one Stop(EndTurn) event — even while
/// unfinished tool-call fragments sit in the accumulator, which keeps its
/// buffers (extended by the event's own fragments) instead of draining.
pub proof fn lemma_stop_keeps_buffers(st: NormalizerView, ev: ResponseEventView)
    requires
        ev.choices.len() > 0,
        selected_delta(st, ev.choices[0]) is Some,
        selected_delta(st, ev.choices[0])->0.content is None,
        ev.choices[0].finish_reason == Some("stop"@),
    ensures
        spec_process(st, ev).1 =~= seq![
            Ok::<CompletionEventView, NormalizeErrorView>(
                CompletionEventView::Stop(StopReason::EndTurn),
            ),
        ],
        spec_process(st, ev).0.pending == apply_chunks(
            st.pending,
            selected_delta(st, ev.choices[0])->0.tool_calls,
        ),
        spec_process(st, ev).0.last_unexpected_finish == st.last_unexpected_finish,
{
}

} // verus!
