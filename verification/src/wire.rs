//! Translation between the host's request/event representation and the
//! OpenAI-compatible wire format. The wire client itself (HTTP, JSON) is
//! outside the library: the application decodes each streamed chunk into a
//! `WireEvent` and feeds it to the stateful `EventMapper`, which emits the
//! host's completion events, assembling partial tool calls across chunks.

use vstd::prelude::*;

verus! {

/// A chat participant.
#[derive(Clone, Copy, PartialEq, Eq, Structural)]
pub enum Role {
    System,
    User,
    Assistant,
}

/// One message of the host's request.
pub struct HostMessage {
    pub role: Role,
    pub content: String,
}

/// The host's generic completion request.
pub struct HostRequest {
    pub messages: Vec<HostMessage>,
}

/// One message of the wire request.
pub struct WireMessage {
    pub role: Role,
    pub content: String,
}

/// The OpenAI-compatible request body.
pub struct WireRequest {
    pub model: String,
    pub messages: Vec<WireMessage>,
    pub stream: bool,
    pub max_tokens: Option<u32>,
}

/// Translates a host request into the wire shape for `model_name`,
/// applying the model's output-token ceiling; streaming is always on.
pub fn into_wire(request: &HostRequest, model_name: &str, max_output_tokens: Option<u32>) -> (r:
    WireRequest)
    ensures
        r.model@ == model_name@,
        r.stream == true,
        r.max_tokens == max_output_tokens,
        r.messages@.len() == request.messages@.len(),
        forall|i: int|
            0 <= i < r.messages@.len() ==> (#[trigger] r.messages@[i]).role
                == request.messages@[i].role && r.messages@[i].content@
                == request.messages@[i].content@,
{
    let mut messages: Vec<WireMessage> = Vec::new();
    let mut i: usize = 0;
    while i < request.messages.len()
        invariant
            i <= request.messages.len(),
            messages@.len() == i,
            forall|j: int|
                0 <= j < i ==> (#[trigger] messages@[j]).role == request.messages@[j].role
                    && messages@[j].content@ == request.messages@[j].content@,
        decreases request.messages.len() - i,
    {
        let m = &request.messages[i];
        messages.push(WireMessage { role: m.role, content: m.content.clone() });
        i = i + 1;
    }
    WireRequest { model: model_name.to_owned(), messages, stream: true, max_tokens: max_output_tokens }
}

/// A fragment of one tool call, as streamed by the wire protocol: the
/// call's slot, and whichever of its parts this chunk carries.
pub struct ToolCallChunk {
    pub index: usize,
    pub id: Option<String>,
    pub name: Option<String>,
    pub arguments: Option<String>,
}

pub ghost struct ChunkView {
    pub index: usize,
    pub id: Option<Seq<char>>,
    pub name: Option<Seq<char>>,
    pub arguments: Option<Seq<char>>,
}

impl View for ToolCallChunk {
    type V = ChunkView;

    open spec fn view(&self) -> ChunkView {
        ChunkView {
            index: self.index,
            id: match self.id {
                Some(s) => Some(s@),
                None => None,
            },
            name: match self.name {
                Some(s) => Some(s@),
                None => None,
            },
            arguments: match self.arguments {
                Some(s) => Some(s@),
                None => None,
            },
        }
    }
}

/// One streamed choice: a content delta, tool-call fragments, and
/// possibly the reason the model finished.
pub struct WireChoice {
    pub content: Option<String>,
    pub tool_calls: Vec<ToolCallChunk>,
    pub finish_reason: Option<String>,
}

pub ghost struct ChoiceView {
    pub content: Option<Seq<char>>,
    pub tool_calls: Seq<ChunkView>,
    pub finish_reason: Option<Seq<char>>,
}

impl View for WireChoice {
    type V = ChoiceView;

    open spec fn view(&self) -> ChoiceView {
        ChoiceView {
            content: match self.content {
                Some(s) => Some(s@),
                None => None,
            },
            tool_calls: Seq::new(self.tool_calls@.len(), |i: int| self.tool_calls@[i]@),
            finish_reason: match self.finish_reason {
                Some(s) => Some(s@),
                None => None,
            },
        }
    }
}

/// One decoded streamed protocol event.
pub struct WireEvent {
    pub choices: Vec<WireChoice>,
}

pub ghost struct WireEventView {
    pub choices: Seq<ChoiceView>,
}

impl View for WireEvent {
    type V = WireEventView;

    open spec fn view(&self) -> WireEventView {
        WireEventView { choices: Seq::new(self.choices@.len(), |i: int| self.choices@[i]@) }
    }
}

/// Why a completion ended.
#[derive(Clone, Copy, PartialEq, Eq, Structural)]
pub enum StopReason {
    EndTurn,
    ToolUse,
}

/// A fully assembled tool call.
pub struct ToolCall {
    pub id: String,
    pub name: String,
    pub arguments: String,
}

pub ghost struct ToolCallView {
    pub id: Seq<char>,
    pub name: Seq<char>,
    pub arguments: Seq<char>,
}

impl View for ToolCall {
    type V = ToolCallView;

    open spec fn view(&self) -> ToolCallView {
        ToolCallView { id: self.id@, name: self.name@, arguments: self.arguments@ }
    }
}

/// A unit of streamed model output in the host's shape.
pub enum CompletionEvent {
    Text(String),
    ToolUse(ToolCall),
    Stop(StopReason),
}

pub ghost enum EventView {
    Text(Seq<char>),
    ToolUse(ToolCallView),
    Stop(StopReason),
}

impl View for CompletionEvent {
    type V = EventView;

    open spec fn view(&self) -> EventView {
        match self {
            CompletionEvent::Text(t) => EventView::Text(t@),
            CompletionEvent::ToolUse(t) => EventView::ToolUse(t@),
            CompletionEvent::Stop(r) => EventView::Stop(*r),
        }
    }
}

pub open spec fn event_views(s: Seq<CompletionEvent>) -> Seq<EventView> {
    Seq::new(s.len(), |i: int| s[i]@)
}

/// An empty tool-call slot.
pub open spec fn blank_tool() -> ToolCallView {
    ToolCallView { id: Seq::empty(), name: Seq::empty(), arguments: Seq::empty() }
}

/// The accumulator grown with blank slots until slot `n - 1` exists.
pub open spec fn padded(s: Seq<ToolCallView>, n: int) -> Seq<ToolCallView> {
    if s.len() >= n {
        s
    } else {
        s + Seq::new((n - s.len()) as nat, |i: int| blank_tool())
    }
}

/// One fragment folded into its slot: an id replaces, name and argument
/// fragments append.
pub open spec fn merge_chunk(t: ToolCallView, c: ChunkView) -> ToolCallView {
    ToolCallView {
        id: match c.id {
            Some(i) => i,
            None => t.id,
        },
        name: match c.name {
            Some(n) => t.name + n,
            None => t.name,
        },
        arguments: match c.arguments {
            Some(a) => t.arguments + a,
            None => t.arguments,
        },
    }
}

pub open spec fn apply_chunk(s: Seq<ToolCallView>, c: ChunkView) -> Seq<ToolCallView> {
    let p = padded(s, c.index + 1);
    p.update(c.index as int, merge_chunk(p[c.index as int], c))
}

pub open spec fn apply_chunks(s: Seq<ToolCallView>, cs: Seq<ChunkView>) -> Seq<ToolCallView>
    decreases cs.len(),
{
    if cs.len() == 0 {
        s
    } else {
        apply_chunk(apply_chunks(s, cs.drop_last()), cs.last())
    }
}

/// The assembled tool calls surfaced as events, in slot order.
pub open spec fn tool_use_events(s: Seq<ToolCallView>) -> Seq<EventView> {
    Seq::new(s.len(), |i: int| EventView::ToolUse(s[i]))
}

/// What one streamed choice does to the mapper: its content delta is
/// emitted at once; its tool-call fragments are folded into the
/// accumulator; a finish reason of `tool_calls` flushes the accumulator
/// as tool-use events before the stop, any other finish reason ends the
/// turn.
pub open spec fn choice_step(s: Seq<ToolCallView>, c: ChoiceView) -> (Seq<ToolCallView>, Seq<
    EventView,
>) {
    let text_evs = match c.content {
        Some(t) => seq![EventView::Text(t)],
        None => Seq::<EventView>::empty(),
    };
    let s1 = apply_chunks(s, c.tool_calls);
    match c.finish_reason {
        None => (s1, text_evs),
        Some(r) => if r == "tool_calls"@ {
            (
                Seq::<ToolCallView>::empty(),
                text_evs + tool_use_events(s1).push(EventView::Stop(StopReason::ToolUse)),
            )
        } else {
            (s1, text_evs.push(EventView::Stop(StopReason::EndTurn)))
        },
    }
}

pub open spec fn choices_step(s: Seq<ToolCallView>, cs: Seq<ChoiceView>) -> (Seq<ToolCallView>, Seq<
    EventView,
>)
    decreases cs.len(),
{
    if cs.len() == 0 {
        (s, Seq::<EventView>::empty())
    } else {
        let prev = choices_step(s, cs.drop_last());
        let last = choice_step(prev.0, cs.last());
        (last.0, prev.1 + last.1)
    }
}

/// What one wire event does to the mapper.
pub open spec fn event_step(s: Seq<ToolCallView>, ev: WireEventView) -> (Seq<ToolCallView>, Seq<
    EventView,
>) {
    choices_step(s, ev.choices)
}

/// The mapper run over a whole stream of wire events.
pub open spec fn run_mapper(s: Seq<ToolCallView>, evs: Seq<WireEventView>) -> (Seq<ToolCallView>,
    Seq<EventView>)
    decreases evs.len(),
{
    if evs.len() == 0 {
        (s, Seq::<EventView>::empty())
    } else {
        let prev = run_mapper(s, evs.drop_last());
        let last = event_step(prev.0, evs.last());
        (last.0, prev.1 + last.1)
    }
}

/// The text a sequence of completion events carries, in order.
pub open spec fn text_of_events(evs: Seq<EventView>) -> Seq<char>
    decreases evs.len(),
{
    if evs.len() == 0 {
        Seq::empty()
    } else {
        text_of_events(evs.drop_last()) + match evs.last() {
            EventView::Text(t) => t,
            _ => Seq::<char>::empty(),
        }
    }
}

pub open spec fn text_of_choice(c: ChoiceView) -> Seq<char> {
    match c.content {
        Some(t) => t,
        None => Seq::empty(),
    }
}

pub open spec fn text_of_choices(cs: Seq<ChoiceView>) -> Seq<char>
    decreases cs.len(),
{
    if cs.len() == 0 {
        Seq::empty()
    } else {
        text_of_choices(cs.drop_last()) + text_of_choice(cs.last())
    }
}

/// The text a stream of wire events carries, in order.
pub open spec fn text_of_wire_events(evs: Seq<WireEventView>) -> Seq<char>
    decreases evs.len(),
{
    if evs.len() == 0 {
        Seq::empty()
    } else {
        text_of_wire_events(evs.drop_last()) + text_of_choices(evs.last().choices)
    }
}

pub proof fn lemma_text_concat(a: Seq<EventView>, b: Seq<EventView>)
    ensures
        text_of_events(a + b) == text_of_events(a) + text_of_events(b),
    decreases b.len(),
{
    if b.len() == 0 {
        assert(a + b =~= a);
        assert(text_of_events(a) + Seq::<char>::empty() =~= text_of_events(a));
    } else {
        lemma_text_concat(a, b.drop_last());
        assert((a + b).drop_last() =~= a + b.drop_last());
        assert((a + b).last() == b.last());
        assert(text_of_events(a + b) == text_of_events(a) + text_of_events(b.drop_last()) + match b.last() {
            EventView::Text(t) => t,
            _ => Seq::<char>::empty(),
        });
    }
}

proof fn lemma_tool_use_events_no_text(s: Seq<ToolCallView>)
    ensures
        text_of_events(tool_use_events(s)) =~= Seq::<char>::empty(),
    decreases s.len(),
{
    if s.len() > 0 {
        lemma_tool_use_events_no_text(s.drop_last());
        assert(tool_use_events(s).drop_last() =~= tool_use_events(s.drop_last()));
    }
}

/// One choice's output carries exactly the choice's content delta.
proof fn lemma_choice_step_text(s: Seq<ToolCallView>, c: ChoiceView)
    ensures
        text_of_events(choice_step(s, c).1) =~= text_of_choice(c),
{
    let text_evs = match c.content {
        Some(t) => seq![EventView::Text(t)],
        None => Seq::<EventView>::empty(),
    };
    match c.content {
        Some(t) => {
            assert(text_evs.last() == EventView::Text(t));
            assert(text_evs.drop_last() =~= Seq::<EventView>::empty());
            assert(text_of_events(Seq::<EventView>::empty()) =~= Seq::<char>::empty());
            assert(Seq::<char>::empty() + t =~= t);
            assert(text_of_events(text_evs) =~= t);
        },
        None => {
            assert(text_of_events(text_evs) =~= Seq::<char>::empty());
        },
    }
    assert(text_of_events(text_evs) =~= text_of_choice(c));
    let s1 = apply_chunks(s, c.tool_calls);
    match c.finish_reason {
        None => {},
        Some(r) => {
            if r == "tool_calls"@ {
                let flush = tool_use_events(s1).push(EventView::Stop(StopReason::ToolUse));
                lemma_text_concat(text_evs, flush);
                lemma_tool_use_events_no_text(s1);
                assert(flush.drop_last() =~= tool_use_events(s1));
                assert(text_of_events(flush) =~= Seq::<char>::empty());
            } else {
                let evs = text_evs.push(EventView::Stop(StopReason::EndTurn));
                assert(evs.drop_last() =~= text_evs);
            }
        },
    }
}

proof fn lemma_choices_step_text(s: Seq<ToolCallView>, cs: Seq<ChoiceView>)
    ensures
        text_of_events(choices_step(s, cs).1) =~= text_of_choices(cs),
    decreases cs.len(),
{
    if cs.len() > 0 {
        let prev = choices_step(s, cs.drop_last());
        lemma_choices_step_text(s, cs.drop_last());
        lemma_choice_step_text(prev.0, cs.last());
        lemma_text_concat(prev.1, choice_step(prev.0, cs.last()).1);
    }
}

/// No text is lost or duplicated across chunk boundaries: over any stream
/// of wire events, from any accumulator state, the mapper's output events
/// carry exactly the concatenated content deltas of the stream.
pub proof fn lemma_stream_text_preserved(s: Seq<ToolCallView>, evs: Seq<WireEventView>)
    ensures
        text_of_events(run_mapper(s, evs).1) =~= text_of_wire_events(evs),
    decreases evs.len(),
{
    if evs.len() > 0 {
        let prev = run_mapper(s, evs.drop_last());
        lemma_stream_text_preserved(s, evs.drop_last());
        lemma_choices_step_text(prev.0, evs.last().choices);
        lemma_text_concat(prev.1, event_step(prev.0, evs.last()).1);
    }
}

/// The stateful adapter from wire events to host completion events.
pub struct EventMapper {
    tool_calls: Vec<ToolCall>,
}

impl View for EventMapper {
    type V = Seq<ToolCallView>;

    closed spec fn view(&self) -> Seq<ToolCallView> {
        Seq::new(self.tool_calls@.len(), |i: int| self.tool_calls@[i]@)
    }
}

impl EventMapper {
    pub fn new() -> (r: Self)
        ensures
            r@ =~= Seq::<ToolCallView>::empty(),
    {
        EventMapper { tool_calls: Vec::new() }
    }

    /// Folds one tool-call fragment into its slot, growing the
    /// accumulator as needed.
    fn apply_tool_chunk(&mut self, chunk: ToolCallChunk)
        ensures
            final(self)@ =~= apply_chunk(old(self)@, chunk@),
    {
        let ghost s0 = self@;
        while self.tool_calls.len() <= chunk.index
            invariant
                self@ =~= padded(s0, self.tool_calls@.len() as int),
                self.tool_calls@.len() >= s0.len(),
                self.tool_calls@.len() as int <= chunk@.index + 1 || self.tool_calls@.len()
                    == s0.len(),
            decreases chunk.index + 1 - self.tool_calls@.len(),
        {
            let ghost before = self@;
            self.tool_calls.push(
                ToolCall { id: String::new(), name: String::new(), arguments: String::new() },
            );
            proof {
                assert(self@ =~= before.push(blank_tool()));
                assert(self@ =~= padded(s0, self.tool_calls@.len() as int));
            }
        }
        proof {
            let len = self.tool_calls@.len() as int;
            if len == chunk@.index + 1 {
                assert(padded(s0, chunk@.index + 1) =~= padded(s0, len));
            } else {
                assert(len == s0.len() as int);
                assert(padded(s0, len) =~= s0);
                assert(padded(s0, chunk@.index + 1) =~= s0);
            }
            assert(self@ =~= padded(s0, chunk@.index + 1));
        }
        let ghost p = padded(s0, chunk@.index + 1);
        let ghost pre = self@;
        let mut t = self.tool_calls.remove(chunk.index);
        assert(t@ == pre[chunk@.index as int]);
        assert(t@ == p[chunk@.index as int]);
        match chunk.id {
            Some(id) => {
                t.id = id;
            },
            None => {},
        }
        match chunk.name {
            Some(name) => {
                t.name.append(name.as_str());
            },
            None => {},
        }
        match chunk.arguments {
            Some(arguments) => {
                t.arguments.append(arguments.as_str());
            },
            None => {},
        }
        assert(t@ == merge_chunk(p[chunk@.index as int], chunk@));
        self.tool_calls.insert(chunk.index, t);
        assert(self@ =~= p.update(chunk@.index as int, merge_chunk(p[chunk@.index as int], chunk@)));
    }

    /// Adapts one streamed wire event into host completion events,
    /// carrying partial tool-call assembly across events.
    pub fn map_event(&mut self, ev: WireEvent) -> (r: Vec<CompletionEvent>)
        ensures
            final(self)@ =~= event_step(old(self)@, ev@).0,
            event_views(r@) =~= event_step(old(self)@, ev@).1,
    {
        let ghost s0 = self@;
        let ghost cs = ev@.choices;
        let mut out: Vec<CompletionEvent> = Vec::new();
        let mut choices = ev.choices;
        let ghost n = cs.len();
        let ghost mut i: int = 0;
        proof {
            assert(cs.take(0) =~= Seq::<ChoiceView>::empty());
        }
        while choices.len() > 0
            invariant
                n == cs.len(),
                0 <= i,
                i + choices@.len() == n,
                forall|j: int| 0 <= j < choices@.len() ==> (#[trigger] choices@[j])@ == cs[i + j],
                self@ =~= choices_step(s0, cs.take(i)).0,
                event_views(out@) =~= choices_step(s0, cs.take(i)).1,
            decreases choices@.len(),
        {
            let ghost pre_choices = choices@;
            let choice = choices.remove(0);
            proof {
                assert(choice == pre_choices[0]);
                assert(choice@ == cs[i]);
                assert(choices@ =~= pre_choices.subrange(1, pre_choices.len() as int));
                assert forall|j: int| 0 <= j < choices@.len() implies (#[trigger] choices@[j])@
                    == cs[i + 1 + j] by {
                    assert(choices@[j] == pre_choices[j + 1]);
                }
            }
            let ghost c = cs[i];
            let ghost st_before = self@;
            let ghost out_before = event_views(out@);
            let ghost text_evs = match c.content {
                Some(t) => seq![EventView::Text(t)],
                None => Seq::<EventView>::empty(),
            };

            match choice.content {
                Some(text) => {
                    let ghost tv = text@;
                    out.push(CompletionEvent::Text(text));
                    proof {
                        assert(c.content == Some(tv));
                        assert(event_views(out@) =~= out_before + text_evs);
                    }
                },
                None => {
                    proof {
                        assert(event_views(out@) =~= out_before + text_evs);
                    }
                },
            }

            let mut chunks = choice.tool_calls;
            let ghost all_chunks = c.tool_calls;
            let ghost m = all_chunks.len();
            let ghost mut k: int = 0;
            proof {
                assert(all_chunks.take(0) =~= Seq::<ChunkView>::empty());
            }
            while chunks.len() > 0
                invariant
                    m == all_chunks.len(),
                    0 <= k,
                    k + chunks@.len() == m,
                    forall|j: int| 0 <= j < chunks@.len() ==> (#[trigger] chunks@[j])@
                        == all_chunks[k + j],
                    self@ =~= apply_chunks(st_before, all_chunks.take(k)),
                decreases chunks@.len(),
            {
                let ghost pre_chunks = chunks@;
                let chunk = chunks.remove(0);
                proof {
                    assert(chunk == pre_chunks[0]);
                    assert(chunk@ == all_chunks[k]);
                    assert(chunks@ =~= pre_chunks.subrange(1, pre_chunks.len() as int));
                    assert forall|j: int| 0 <= j < chunks@.len() implies (#[trigger] chunks@[j])@
                        == all_chunks[k + 1 + j] by {
                        assert(chunks@[j] == pre_chunks[j + 1]);
                    }
                }
                self.apply_tool_chunk(chunk);
                proof {
                    assert(k < m);
                    assert(all_chunks.take(k + 1).drop_last() =~= all_chunks.take(k));
                    assert(all_chunks.take(k + 1).last() == all_chunks[k]);
                }
                proof {
                    k = k + 1;
                }
            }
            proof {
                assert(all_chunks.take(m as int) =~= all_chunks);
                assert(self@ =~= apply_chunks(st_before, all_chunks));
            }
            let ghost s1 = apply_chunks(st_before, all_chunks);

            match choice.finish_reason {
                Some(reason) => {
                    let tool_calls_reason: String = "tool_calls".to_owned();
                    if reason == tool_calls_reason {
                        assert(c.finish_reason == Some("tool_calls"@));
                        let ghost out_pre_flush = event_views(out@);
                        let total: usize = self.tool_calls.len();
                        let mut done: usize = 0;
                        proof {
                            assert(total == s1.len());
                            assert(s1.take(0) =~= Seq::<ToolCallView>::empty());
                            assert(tool_use_events(s1.take(0)) =~= Seq::<EventView>::empty());
                            assert(out_pre_flush + tool_use_events(s1.take(0)) =~= out_pre_flush);
                            assert(self@ =~= s1.skip(0));
                        }
                        while done < total
                            invariant
                                done <= total,
                                total == s1.len(),
                                done + self.tool_calls@.len() == s1.len(),
                                self@ =~= s1.skip(done as int),
                                event_views(out@) =~= out_pre_flush + tool_use_events(
                                    s1.take(done as int),
                                ),
                            decreases total - done,
                        {
                            let ghost remaining = self@;
                            let ghost out_pre = event_views(out@);
                            let t = self.tool_calls.remove(0);
                            proof {
                                assert(remaining.len() > 0);
                                assert(t@ == remaining[0]);
                                assert(remaining[0] == s1.skip(done as int)[0]);
                                assert(s1.skip(done as int)[0] == s1[done as int]);
                                assert(self@ =~= remaining.drop_first());
                                assert(remaining.drop_first() =~= s1.skip(done as int + 1));
                            }
                            out.push(CompletionEvent::ToolUse(t));
                            proof {
                                assert(event_views(out@) =~= out_pre.push(
                                    EventView::ToolUse(s1[done as int]),
                                ));
                                assert(tool_use_events(s1.take(done as int + 1)) =~=
                                    tool_use_events(s1.take(done as int)).push(
                                    EventView::ToolUse(s1[done as int]),
                                ));
                                assert(event_views(out@) =~= out_pre_flush + tool_use_events(
                                    s1.take(done as int + 1),
                                ));
                            }
                            done = done + 1;
                        }
                        let ghost out_flushed = event_views(out@);
                        out.push(CompletionEvent::Stop(StopReason::ToolUse));
                        proof {
                            assert(s1.take(s1.len() as int) =~= s1);
                            assert(self@ =~= s1.skip(s1.len() as int));
                            assert(self@ =~= Seq::<ToolCallView>::empty());
                            assert(event_views(out@) =~= out_flushed.push(
                                EventView::Stop(StopReason::ToolUse),
                            ));
                            assert(out_flushed =~= out_pre_flush + tool_use_events(s1));
                            assert(event_views(out@) =~= out_before + (text_evs + tool_use_events(
                                s1,
                            ).push(EventView::Stop(StopReason::ToolUse))));
                            assert(event_views(out@) =~= out_before + choice_step(st_before, c).1);
                        }
                    } else {
                        assert(c.finish_reason matches Some(r2) && r2 != "tool_calls"@);
                        out.push(CompletionEvent::Stop(StopReason::EndTurn));
                        proof {
                            assert(event_views(out@) =~= out_before + text_evs.push(
                                EventView::Stop(StopReason::EndTurn),
                            ));
                            assert(event_views(out@) =~= out_before + choice_step(st_before, c).1);
                        }
                    }
                },
                None => {
                    proof {
                        assert(c.finish_reason is None);
                        assert(event_views(out@) =~= out_before + choice_step(st_before, c).1);
                    }
                },
            }
            proof {
                assert(i < n);
                assert(cs.take(i + 1).drop_last() =~= cs.take(i));
                assert(cs.take(i + 1).last() == c);
                assert(self@ =~= choices_step(s0, cs.take(i + 1)).0);
                assert(event_views(out@) =~= choices_step(s0, cs.take(i + 1)).1);
            }
            proof {
                i = i + 1;
            }
        }
        proof {
            assert(cs.take(n as int) =~= cs);
        }
        out
    }
}

} // verus!
