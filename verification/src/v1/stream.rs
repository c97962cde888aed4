//! A streamed chat completion as a sequence that the caller pulls.
//!
//! The caller opens a stream on the server's reply and then hands it what the
//! transport delivers: bytes, a failure, or the end. Each time the stream says
//! what it yields. A stream is active until it meets the sentinel, the
//! transport ends, or the transport fails; after that it yields nothing.
//!
//! A stream that is not yet opened has no value here: it comes to be, active,
//! when [`ChatStream::open`] accepts the reply.
use vstd::prelude::*;
use vstd::utf8::valid_utf8;
use crate::v1::chat_stream::{
    data_prefix,
    decode_delivery,
    delivery_of,
    fragment_models,
    json_of_fragment,
    lemma_data_line,
    lemma_delivery_concat,
    lemma_fragment_round_trip,
    lemma_markers,
    lemma_one_line_delivery,
    lemma_scan_one_line,
    line_bytes,
    sentinel,
    ChatStreamChunk,
    Delivery,
    DeliveryModel,
    FragmentModel,
};
use crate::v1::error::ApiError;
use crate::v1::http::{accept, accepted, HttpOutcome, MessageOrder};
use crate::v1::json::{json_parse, JsonModel};
use crate::v1::text::{
    complete_len,
    is_whitespace,
    lemma_complete_len,
    lemma_complete_len_is,
    lemma_cut_behind_line_feed,
    lemma_trim_fixed,
    trim,
};

verus! {

/// Where a stream stands.
#[derive(Clone, Copy, Debug, PartialEq, Eq, Structural)]
pub enum StreamState {
    /// Deliveries are expected.
    Active,
    /// The stream has ended: the sentinel was met, or the transport closed.
    Terminated,
    /// The transport failed. Nothing more will come.
    Errored,
}

/// What a stream does with a data line that does not decode.
#[derive(Clone, Copy, Debug, PartialEq, Eq, Structural)]
pub enum FaultPolicy {
    /// The line is dropped; the other fragments of the delivery are yielded.
    Skip,
    /// The delivery yields the error of its first such line in place of its
    /// fragments.
    Report,
}

/// How a stream finds the lines in what the transport delivers.
#[derive(Clone, Copy, Debug, PartialEq, Eq, Structural)]
pub enum Framing {
    /// Each delivery is framed by itself. A line that the transport cut in two
    /// is two lines, and most likely two lines that do not decode.
    PerDelivery,
    /// What follows the last line feed of a delivery is kept and put in front
    /// of the next delivery. A line is looked at once it is whole, or when the
    /// transport ends.
    Reassemble,
}

/// One item of a stream: the fragments of one delivery, or an error.
pub type StreamItem = Result<Vec<ChatStreamChunk>, ApiError>;

/// The content of a [`StreamItem`].
pub type StreamItemModel = Result<Seq<FragmentModel>, Seq<char>>;

/// A streamed chat completion.
#[derive(Clone, Debug)]
pub struct ChatStream {
    pub state: StreamState,
    pub policy: FaultPolicy,
    pub framing: Framing,
    /// The bytes that were delivered and not yet looked at: the start of a
    /// line whose end has not come. Always empty under
    /// [`Framing::PerDelivery`].
    pub pending: Vec<u8>,
}

/// The content of a [`ChatStream`].
pub struct StreamModel {
    pub state: StreamState,
    pub policy: FaultPolicy,
    pub framing: Framing,
    pub pending: Seq<u8>,
}

impl View for ChatStream {
    type V = StreamModel;

    open spec fn view(&self) -> StreamModel {
        StreamModel {
            state: self.state,
            policy: self.policy,
            framing: self.framing,
            pending: self.pending@,
        }
    }
}

/// The item that a delivery yields, if any. Bytes that could not be read yield
/// an error. Under [`FaultPolicy::Report`] a delivery with a line that did not
/// decode yields the first such error. A delivery that ends the stream and
/// carries no fragment yields nothing. Any other delivery yields its fragments,
/// even where they are none.
pub open spec fn item_of(
    delivery: Result<DeliveryModel, Seq<char>>,
    policy: FaultPolicy,
) -> Option<StreamItemModel> {
    match delivery {
        Err(message) => Some(Err(message)),
        Ok(content) => if policy == FaultPolicy::Report && content.faults.len() > 0 {
            Some(Err(content.faults[0]))
        } else if content.terminated && content.fragments.len() == 0 {
            None
        } else {
            Some(Ok(content.fragments))
        },
    }
}

/// Whether a delivery ends the stream.
pub open spec fn ends_stream(delivery: Result<DeliveryModel, Seq<char>>) -> bool {
    delivery matches Ok(content) && content.terminated
}

/// Whether an item, or the lack of one, is the one expected.
pub open spec fn yields(r: Option<StreamItem>, expected: Option<StreamItemModel>) -> bool {
    match expected {
        None => r is None,
        Some(Ok(models)) => r matches Some(Ok(fragments)) && fragment_models(fragments@) == models,
        Some(Err(message)) => r matches Some(Err(error)) && error.message@ == message,
    }
}

/// Every fragment of an item is well formed.
pub open spec fn item_wf(r: Option<StreamItem>) -> bool {
    r matches Some(Ok(fragments)) ==> forall|i: int|
        0 <= i < fragments@.len() ==> (#[trigger] fragments@[i]).wf()
}

/// The bytes of a run of deliveries, one after the other.
pub open spec fn joined(deliveries: Seq<Seq<u8>>) -> Seq<u8>
    decreases deliveries.len(),
{
    if deliveries.len() == 0 {
        Seq::empty()
    } else {
        joined(deliveries.drop_last()) + deliveries.last()
    }
}

/// The fragments of a run of items, one batch after the other. An error holds
/// none.
pub open spec fn batches(items: Seq<StreamItemModel>) -> Seq<FragmentModel>
    decreases items.len(),
{
    if items.len() == 0 {
        Seq::empty()
    } else {
        batches(items.drop_last()) + match items.last() {
            Ok(fragments) => fragments,
            Err(_) => Seq::empty(),
        }
    }
}

/// A run of items with one more, or as it is.
pub open spec fn with_item(items: Seq<StreamItemModel>, item: Option<StreamItemModel>) -> Seq<
    StreamItemModel,
> {
    match item {
        Some(item) => items.push(item),
        None => items,
    }
}

impl StreamModel {
    /// A stream that was just opened.
    pub open spec fn opened(policy: FaultPolicy, framing: Framing) -> StreamModel {
        StreamModel { state: StreamState::Active, policy, framing, pending: Seq::empty() }
    }

    /// How much of the bytes at hand the stream looks at now: all of them, or
    /// under [`Framing::Reassemble`] the whole lines among them.
    pub open spec fn cut(self, buffer: Seq<u8>) -> int {
        match self.framing {
            Framing::PerDelivery => buffer.len() as int,
            Framing::Reassemble => complete_len(buffer),
        }
    }

    /// What a stream becomes when it takes one delivery, and the item that it
    /// yields. An active stream puts the delivery behind the bytes it kept,
    /// decodes the part it looks at and keeps the rest. It ends where that part
    /// holds the sentinel; an error in it does not end the stream. A stream that
    /// is over stays as it is and yields nothing.
    pub open spec fn step(self, bytes: Seq<u8>) -> (StreamModel, Option<StreamItemModel>) {
        if self.state != StreamState::Active {
            (self, None)
        } else {
            let buffer = self.pending + bytes;
            let at = self.cut(buffer);
            let delivery = delivery_of(buffer.take(at));
            if ends_stream(delivery) {
                (
                    StreamModel { state: StreamState::Terminated, pending: Seq::empty(), ..self },
                    item_of(delivery, self.policy),
                )
            } else {
                (StreamModel { pending: buffer.skip(at), ..self }, item_of(delivery, self.policy))
            }
        }
    }

    /// What a stream becomes when the transport has no more bytes, and the
    /// item that it yields. An active stream ends; the bytes it kept, if any,
    /// are decoded as its last delivery.
    pub open spec fn finish(self) -> (StreamModel, Option<StreamItemModel>) {
        if self.state != StreamState::Active {
            (self, None)
        } else {
            (
                StreamModel { state: StreamState::Terminated, pending: Seq::empty(), ..self },
                if self.pending.len() == 0 {
                    None
                } else {
                    item_of(delivery_of(self.pending), self.policy)
                },
            )
        }
    }

    /// What a stream becomes when the transport fails, and the item that it
    /// yields. An active stream yields the failure as its last item; what it
    /// kept is lost.
    pub open spec fn fail(self, reason: Seq<char>) -> (StreamModel, Option<StreamItemModel>) {
        if self.state != StreamState::Active {
            (self, None)
        } else {
            (
                StreamModel { state: StreamState::Errored, pending: Seq::empty(), ..self },
                Some(Err(reason)),
            )
        }
    }

    /// What a stream becomes over a run of deliveries, and the items that it
    /// yields on the way, in order.
    pub open spec fn run(self, deliveries: Seq<Seq<u8>>) -> (StreamModel, Seq<StreamItemModel>)
        decreases deliveries.len(),
    {
        if deliveries.len() == 0 {
            (self, Seq::empty())
        } else {
            let (before, items) = self.run(deliveries.drop_last());
            let (after, item) = before.step(deliveries.last());
            (after, with_item(items, item))
        }
    }

    /// All the fragments that a stream yields over a run of deliveries and the
    /// end of the transport behind them.
    pub open spec fn collected(self, deliveries: Seq<Seq<u8>>) -> Seq<FragmentModel> {
        let (after, items) = self.run(deliveries);
        batches(with_item(items, after.finish().1))
    }

    /// A stream that is over yields nothing, whatever bytes follow.
    pub proof fn lemma_finished_stays(self, deliveries: Seq<Seq<u8>>)
        requires
            self.state != StreamState::Active,
        ensures
            self.run(deliveries) == (self, Seq::<StreamItemModel>::empty()),
        decreases deliveries.len(),
    {
        if deliveries.len() > 0 {
            self.lemma_finished_stays(deliveries.drop_last());
        }
    }

    /// A run is made of its first deliveries and of the rest.
    pub proof fn lemma_run_split(self, deliveries: Seq<Seq<u8>>, n: int)
        requires
            0 <= n <= deliveries.len(),
        ensures
            self.run(deliveries) == ({
                let (middle, first) = self.run(deliveries.take(n));
                let (after, rest) = middle.run(deliveries.skip(n));
                (after, first + rest)
            }),
        decreases deliveries.len(),
    {
        let (middle, first) = self.run(deliveries.take(n));
        if n == deliveries.len() {
            assert(deliveries.take(n) == deliveries);
            assert(deliveries.skip(n) == Seq::<Seq<u8>>::empty());
            assert(first + Seq::<StreamItemModel>::empty() == first);
        } else {
            let shorter = deliveries.drop_last();
            self.lemma_run_split(shorter, n);
            assert(shorter.take(n) == deliveries.take(n));
            assert(shorter.skip(n) == deliveries.skip(n).drop_last());
            assert(deliveries.skip(n).last() == deliveries.last());
            let (before, rest) = middle.run(shorter.skip(n));
            let (after, item) = before.step(deliveries.last());
            match item {
                Some(item) => {
                    assert(first + rest.push(item) == (first + rest).push(item));
                },
                None => {},
            }
        }
    }

    /// Deliveries alone never make a stream fail, and change neither its
    /// policy nor its framing. Under [`Framing::PerDelivery`] a stream that
    /// keeps no bytes never comes to keep any.
    pub proof fn lemma_state_after_run(self, deliveries: Seq<Seq<u8>>)
        requires
            self.state == StreamState::Active,
        ensures
            self.run(deliveries).0.state != StreamState::Errored,
            self.run(deliveries).0.policy == self.policy,
            self.run(deliveries).0.framing == self.framing,
            self.framing == Framing::PerDelivery && self.pending.len() == 0 ==> self.run(
                deliveries,
            ).0.pending.len() == 0,
        decreases deliveries.len(),
    {
        if deliveries.len() > 0 {
            self.lemma_state_after_run(deliveries.drop_last());
        }
    }

    /// Once a stream is over, the deliveries that follow add nothing: the run
    /// is the run up to there.
    pub proof fn lemma_nothing_after_the_end(self, deliveries: Seq<Seq<u8>>, n: int)
        requires
            0 <= n <= deliveries.len(),
            self.run(deliveries.take(n)).0.state != StreamState::Active,
        ensures
            self.run(deliveries) == self.run(deliveries.take(n)),
    {
        let (middle, first) = self.run(deliveries.take(n));
        self.lemma_run_split(deliveries, n);
        middle.lemma_finished_stays(deliveries.skip(n));
        assert(first + Seq::<StreamItemModel>::empty() == first);
    }

    /// The sentinel ends the stream: once a delivery holds it, the stream is
    /// terminated and yields no further item, even if more bytes follow. This
    /// is said of a stream that frames each delivery by itself.
    pub proof fn lemma_sentinel_ends_stream(self, deliveries: Seq<Seq<u8>>, at: int)
        requires
            self.state == StreamState::Active,
            self.framing == Framing::PerDelivery,
            self.pending.len() == 0,
            0 <= at < deliveries.len(),
            ends_stream(delivery_of(deliveries[at])),
        ensures
            self.run(deliveries).0.state == StreamState::Terminated,
            self.run(deliveries) == self.run(deliveries.take(at + 1)),
    {
        let first = deliveries.take(at + 1);
        assert(first.last() == deliveries[at]);
        let (before, items) = self.run(first.drop_last());
        self.lemma_state_after_run(first.drop_last());
        assert(before.pending + deliveries[at] == deliveries[at]);
        assert(deliveries[at].take(deliveries[at].len() as int) == deliveries[at]);
        let (middle, _) = self.run(first);
        assert(middle.state == StreamState::Terminated);
        self.lemma_nothing_after_the_end(deliveries, at + 1);
    }

    /// A delivery with one fragment, then a delivery with the sentinel alone:
    /// the stream yields that one fragment and ends, with no item for the
    /// sentinel.
    pub proof fn lemma_fragment_then_sentinel(
        self,
        first: Seq<u8>,
        second: Seq<u8>,
        fragment: FragmentModel,
    )
        requires
            self.state == StreamState::Active,
            self.framing == Framing::PerDelivery,
            self.pending.len() == 0,
            delivery_of(first) == Ok::<DeliveryModel, Seq<char>>(
                DeliveryModel { fragments: seq![fragment], faults: Seq::empty(), terminated: false },
            ),
            delivery_of(second) == Ok::<DeliveryModel, Seq<char>>(
                DeliveryModel { fragments: Seq::empty(), faults: Seq::empty(), terminated: true },
            ),
        ensures
            self.run(seq![first, second]).0.state == StreamState::Terminated,
            self.run(seq![first, second]).1 == seq![
                Ok::<Seq<FragmentModel>, Seq<char>>(seq![fragment]),
            ],
    {
        let none = Seq::<Seq<u8>>::empty();
        let one = seq![first];
        let both = seq![first, second];
        let item = Ok::<Seq<FragmentModel>, Seq<char>>(seq![fragment]);
        assert(one.drop_last() == none);
        assert(one.last() == first);
        assert(both.drop_last() == one);
        assert(both.last() == second);
        assert(self.pending + first == first);
        assert(first.take(first.len() as int) == first);
        assert(first.skip(first.len() as int) == Seq::<u8>::empty());
        assert(self.pending == Seq::<u8>::empty());
        assert(self.run(none) == (self, Seq::<StreamItemModel>::empty()));
        assert(self.step(first) == (self, Some(item)));
        assert(Seq::<StreamItemModel>::empty().push(item) == seq![item]);
        assert(self.run(one) == (self, seq![item]));
        assert(self.pending + second == second);
        assert(second.take(second.len() as int) == second);
        assert(self.step(second).1 is None);
    }

    /// The line of a fragment, then the line of the sentinel, each delivered
    /// by itself with its line feed: the stream yields that one fragment and
    /// ends, with no item and no error for the sentinel. The fragment is given
    /// by a text that the JSON parser reads as the object that stands for it;
    /// the text is one line, not empty and with no whitespace at either end.
    pub proof fn lemma_fragment_line_then_sentinel_line(
        self,
        fragment: FragmentModel,
        text: Seq<char>,
    )
        requires
            self.state == StreamState::Active,
            self.framing == Framing::PerDelivery,
            self.pending.len() == 0,
            fragment.choices.len() > 0,
            json_parse(text) == Ok::<JsonModel, Seq<char>>(json_of_fragment(fragment)),
            text.len() > 0,
            trim(text) == text,
            text != sentinel().skip(data_prefix().len() as int),
            forall|i: int| 0 <= i < text.len() ==> text[i] != '\n',
        ensures
            ({
                let deliveries = seq![line_bytes(data_prefix() + text), line_bytes(sentinel())];
                &&& self.run(deliveries).0.state == StreamState::Terminated
                &&& self.run(deliveries).1 == seq![
                    Ok::<Seq<FragmentModel>, Seq<char>>(seq![fragment]),
                ]
            }),
    {
        lemma_markers();
        assert(!is_whitespace(']'));
        assert(!is_whitespace('d'));
        assert(is_whitespace('\r'));
        // The line of the fragment.
        let line = data_prefix() + text;
        lemma_trim_fixed(text);
        assert(line.last() == text.last());
        assert forall|i: int| 0 <= i < line.len() implies line[i] != '\n' by {
            if i >= 6 {
                assert(line[i] == text[i - 6]);
            }
        }
        lemma_one_line_delivery(line);
        lemma_scan_one_line(line);
        lemma_data_line(text);
        lemma_fragment_round_trip(fragment);
        // The line of the sentinel.
        let last = sentinel();
        lemma_one_line_delivery(last);
        lemma_scan_one_line(last);
        lemma_trim_fixed(last);
        self.lemma_fragment_then_sentinel(line_bytes(line), line_bytes(last), fragment);
    }
}

/// The bytes of a run of deliveries are those of its first deliveries and
/// then those of the rest.
pub proof fn lemma_joined_split(deliveries: Seq<Seq<u8>>, n: int)
    requires
        0 <= n <= deliveries.len(),
    ensures
        joined(deliveries) == joined(deliveries.take(n)) + joined(deliveries.skip(n)),
    decreases deliveries.len(),
{
    if n == deliveries.len() {
        assert(deliveries.take(n) == deliveries);
        assert(deliveries.skip(n) == Seq::<Seq<u8>>::empty());
        assert(joined(deliveries) + Seq::<u8>::empty() == joined(deliveries));
    } else {
        let shorter = deliveries.drop_last();
        lemma_joined_split(shorter, n);
        assert(shorter.take(n) == deliveries.take(n));
        assert(shorter.skip(n) == deliveries.skip(n).drop_last());
        assert(deliveries.skip(n).last() == deliveries.last());
        assert(joined(deliveries.take(n)) + joined(shorter.skip(n)) + deliveries.last() == joined(
            deliveries.take(n),
        ) + (joined(shorter.skip(n)) + deliveries.last()));
    }
}

/// The fragments of a run of items with one more item, or none, behind it.
pub proof fn lemma_batches_with_item(items: Seq<StreamItemModel>, item: Option<StreamItemModel>)
    ensures
        batches(with_item(items, item)) == batches(items) + (match item {
            Some(Ok(fragments)) => fragments,
            _ => Seq::empty(),
        }),
{
    match item {
        Some(one) => {
            assert(items.push(one).drop_last() == items);
            assert(items.push(one).last() == one);
        },
        None => {
            assert(batches(items) + Seq::<FragmentModel>::empty() == batches(items));
        },
    }
}

impl StreamModel {
    /// Where a reassembling stream stands after the first `n` of a run of
    /// deliveries whose bytes are valid UTF-8. While it is active, it keeps
    /// what follows the last line feed seen, and has yielded the fragments of
    /// the whole lines seen, none of which is the sentinel. Once it is
    /// terminated, it has yielded the fragments of all the bytes.
    pub proof fn lemma_reassembly_so_far(self, deliveries: Seq<Seq<u8>>, n: int)
        requires
            self == StreamModel::opened(FaultPolicy::Skip, Framing::Reassemble),
            valid_utf8(joined(deliveries)),
            0 <= n <= deliveries.len(),
        ensures
            ({
                let seen = joined(deliveries.take(n));
                let whole_lines = seen.take(complete_len(seen));
                let (after, items) = self.run(deliveries.take(n));
                &&& after.policy == FaultPolicy::Skip
                &&& after.framing == Framing::Reassemble
                &&& after.state != StreamState::Errored
                &&& delivery_of(joined(deliveries)) is Ok
                &&& after.state == StreamState::Active ==> {
                    &&& after.pending == seen.skip(complete_len(seen))
                    &&& delivery_of(whole_lines) is Ok
                    &&& !delivery_of(whole_lines)->Ok_0.terminated
                    &&& batches(items) == delivery_of(whole_lines)->Ok_0.fragments
                }
                &&& after.state == StreamState::Terminated ==> {
                    &&& after.pending.len() == 0
                    &&& batches(items) == delivery_of(joined(deliveries))->Ok_0.fragments
                }
            }),
        decreases n,
    {
        let whole = joined(deliveries);
        if n == 0 {
            assert(deliveries.take(0) == Seq::<Seq<u8>>::empty());
            let seen = joined(deliveries.take(0));
            assert(seen == Seq::<u8>::empty());
            assert(seen.take(0) == Seq::<u8>::empty());
            assert(seen.skip(0) == Seq::<u8>::empty());
            lemma_delivery_concat(whole, 0);
            assert(whole.take(0) == Seq::<u8>::empty());
            lemma_empty_delivery();
        } else {
            self.lemma_reassembly_so_far(deliveries, n - 1);
            let earlier = deliveries.take(n - 1);
            let now = deliveries.take(n);
            assert(now.drop_last() == earlier);
            assert(now.last() == deliveries[n - 1]);
            let delivery = deliveries[n - 1];
            let seen = joined(earlier);
            let (before, items) = self.run(earlier);
            let (after, item) = before.step(delivery);
            if before.state == StreamState::Active {
                let c = complete_len(seen);
                lemma_complete_len(seen);
                let buffer = before.pending + delivery;
                let at = complete_len(buffer);
                lemma_complete_len(buffer);
                let seen_now = joined(now);
                assert(seen_now == seen + delivery);
                assert(seen_now == seen.take(c) + buffer) by {
                    assert(seen == seen.take(c) + seen.skip(c));
                    assert(seen.take(c) + seen.skip(c) + delivery == seen.take(c) + (seen.skip(c)
                        + delivery));
                }
                // The whole lines seen now end where those of the buffer end.
                assert forall|i: int| c + at <= i < seen_now.len() implies seen_now[i] != 0x0A by {
                    assert(seen_now[i] == buffer[i - c]);
                }
                if at > 0 {
                    assert(seen_now[c + at - 1] == buffer[at - 1]);
                } else if c > 0 {
                    assert(seen_now[c - 1] == seen[c - 1]);
                }
                lemma_complete_len_is(seen_now, c + at);
                let lines_now = seen_now.take(c + at);
                assert(lines_now.take(c) == seen.take(c));
                assert(lines_now.skip(c) == buffer.take(at));
                assert(seen_now.skip(c + at) == buffer.skip(at));
                // They are valid UTF-8, being the start of valid UTF-8.
                lemma_joined_split(deliveries, n);
                let rest = joined(deliveries.skip(n));
                assert(whole == seen_now + rest);
                assert(whole.take(c + at) == lines_now);
                if c + at > 0 {
                    assert(whole[c + at - 1] == seen_now[c + at - 1]);
                }
                lemma_cut_behind_line_feed(whole, c + at);
                if c > 0 {
                    assert(lines_now[c - 1] == seen[c - 1]);
                }
                lemma_delivery_concat(lines_now, c);
                let d_before = delivery_of(seen.take(c))->Ok_0;
                let d_buffer = delivery_of(buffer.take(at))->Ok_0;
                assert(delivery_of(lines_now)->Ok_0 == d_before.followed_by(d_buffer));
                lemma_batches_with_item(items, item);
                if d_buffer.terminated && d_buffer.fragments.len() == 0 {
                    assert(d_buffer.fragments == Seq::<FragmentModel>::empty());
                }
                if d_buffer.terminated {
                    lemma_delivery_concat(whole, c + at);
                }
            }
        }
    }

    /// Reassembly: however the transport cuts the bytes of a stream into
    /// deliveries, a reassembling stream yields, by the end of the transport,
    /// the fragments that the bytes carry as a whole. This is said of bytes
    /// that are valid UTF-8 and of a stream that skips the lines that do not
    /// decode.
    pub proof fn lemma_reassembly(self, deliveries: Seq<Seq<u8>>)
        requires
            self == StreamModel::opened(FaultPolicy::Skip, Framing::Reassemble),
            valid_utf8(joined(deliveries)),
        ensures
            delivery_of(joined(deliveries)) is Ok,
            self.collected(deliveries) == delivery_of(joined(deliveries))->Ok_0.fragments,
    {
        let whole = joined(deliveries);
        self.lemma_reassembly_so_far(deliveries, deliveries.len() as int);
        assert(deliveries.take(deliveries.len() as int) == deliveries);
        let (after, items) = self.run(deliveries);
        let last = after.finish().1;
        lemma_batches_with_item(items, last);
        if after.state == StreamState::Active {
            let c = complete_len(whole);
            lemma_complete_len(whole);
            lemma_delivery_concat(whole, c);
            let d_lines = delivery_of(whole.take(c))->Ok_0;
            let d_rest = delivery_of(whole.skip(c))->Ok_0;
            if after.pending.len() == 0 {
                assert(whole.skip(c) == Seq::<u8>::empty());
                lemma_empty_delivery();
            } else if d_rest.terminated && d_rest.fragments.len() == 0 {
                assert(d_rest.fragments == Seq::<FragmentModel>::empty());
            }
        } else {
            assert(batches(items) + Seq::<FragmentModel>::empty() == batches(items));
        }
    }

    /// The same bytes, delivered at once or cut in two at any place, yield the
    /// same fragments from a reassembling stream.
    pub proof fn lemma_cut_anywhere(self, bytes: Seq<u8>, at: int)
        requires
            self == StreamModel::opened(FaultPolicy::Skip, Framing::Reassemble),
            valid_utf8(bytes),
            0 <= at <= bytes.len(),
        ensures
            self.collected(seq![bytes.take(at), bytes.skip(at)]) == self.collected(seq![bytes]),
    {
        let one = seq![bytes];
        let two = seq![bytes.take(at), bytes.skip(at)];
        assert(one.drop_last() == Seq::<Seq<u8>>::empty());
        assert(joined(one) == bytes) by {
            assert(joined(one.drop_last()) == Seq::<u8>::empty());
            assert(Seq::<u8>::empty() + bytes == bytes);
        }
        assert(two.drop_last() == seq![bytes.take(at)]);
        assert(seq![bytes.take(at)].drop_last() == Seq::<Seq<u8>>::empty());
        assert(joined(two) == bytes) by {
            assert(joined(seq![bytes.take(at)]) == Seq::<u8>::empty() + bytes.take(at));
            assert(Seq::<u8>::empty() + bytes.take(at) == bytes.take(at));
            assert(bytes.take(at) + bytes.skip(at) == bytes);
        }
        self.lemma_reassembly(one);
        self.lemma_reassembly(two);
    }
}

/// No bytes carry nothing.
pub proof fn lemma_empty_delivery()
    ensures
        delivery_of(Seq::<u8>::empty()) == Ok::<DeliveryModel, Seq<char>>(
            DeliveryModel { fragments: Seq::empty(), faults: Seq::empty(), terminated: false },
        ),
{
    let none = Seq::<u8>::empty();
    assert(valid_utf8(none));
    assert(vstd::utf8::decode_utf8(none) == Seq::<char>::empty());
}

/// What a decoder's result amounts to as content.
pub open spec fn outcome_model(r: Result<Delivery, ApiError>) -> Result<DeliveryModel, Seq<char>> {
    match r {
        Ok(delivery) => Ok(delivery@),
        Err(error) => Err(error.message@),
    }
}

/// Puts bytes behind the bytes of a buffer.
fn append_bytes(buffer: &mut Vec<u8>, bytes: &[u8])
    ensures
        final(buffer)@ == old(buffer)@ + bytes@,
{
    let ghost before = buffer@;
    let mut i: usize = 0;
    assert(before + bytes@.take(0) == before);
    while i < bytes.len()
        invariant
            i <= bytes@.len(),
            buffer@ == before + bytes@.take(i as int),
        decreases bytes@.len() - i,
    {
        buffer.push(bytes[i]);
        assert(before + bytes@.take(i + 1) == (before + bytes@.take(i as int)).push(bytes@[i as int]));
        i += 1;
    }
    assert(bytes@.take(i as int) == bytes@);
}

/// The length of the part of a buffer that is made of whole lines.
fn complete_length(buffer: &Vec<u8>) -> (at: usize)
    ensures
        at == complete_len(buffer@),
{
    let mut at: usize = buffer.len();
    assert(buffer@.take(at as int) == buffer@);
    while at > 0 && buffer[at - 1] != 0x0A
        invariant
            at <= buffer@.len(),
            complete_len(buffer@) == complete_len(buffer@.take(at as int)),
        decreases at,
    {
        assert(buffer@.take(at as int).drop_last() == buffer@.take(at - 1));
        at -= 1;
    }
    at
}

/// The item that a decoded delivery yields under a policy, and whether the
/// delivery ends the stream.
fn item_from(delivery: Result<Delivery, ApiError>, policy: FaultPolicy) -> (r: (
    Option<StreamItem>,
    bool,
))
    requires
        delivery matches Ok(content) ==> content.wf(),
    ensures
        yields(r.0, item_of(outcome_model(delivery), policy)),
        r.1 == ends_stream(outcome_model(delivery)),
        item_wf(r.0),
{
    match delivery {
        Err(error) => (Some(Err(error)), false),
        Ok(content) => {
            let Delivery { fragments, mut faults, terminated } = content;
            let report = match policy {
                FaultPolicy::Report => faults.len() > 0,
                FaultPolicy::Skip => false,
            };
            if report {
                (Some(Err(faults.swap_remove(0))), terminated)
            } else if terminated && fragments.len() == 0 {
                (None, terminated)
            } else {
                (Some(Ok(fragments)), terminated)
            }
        },
    }
}

impl ChatStream {
    /// Opens a stream on what came of sending the request. The stream comes to
    /// be only where the server answered with a success status. Otherwise the
    /// call fails, with the transport's reason or with the status and body of
    /// the reply, and there is no stream to pull from.
    pub fn open(outcome: HttpOutcome, policy: FaultPolicy, framing: Framing) -> (r: Result<
        ChatStream,
        ApiError,
    >)
        ensures
            match accepted(outcome, MessageOrder::StatusFirst) {
                Ok(_) => r matches Ok(stream) && stream@ == StreamModel::opened(policy, framing),
                Err(message) => r matches Err(error) && error.message@ == message,
            },
    {
        match accept(outcome, MessageOrder::StatusFirst) {
            Ok(_) => Ok(
                ChatStream { state: StreamState::Active, policy, framing, pending: Vec::new() },
            ),
            Err(error) => Err(error),
        }
    }

    /// Whether the stream will yield nothing more.
    pub fn is_finished(&self) -> (r: bool)
        ensures
            r == (self.state != StreamState::Active),
    {
        match self.state {
            StreamState::Active => false,
            _ => true,
        }
    }

    /// Takes one delivery of bytes and hands out the item it yields.
    pub fn on_chunk(&mut self, bytes: &[u8]) -> (r: Option<StreamItem>)
        ensures
            final(self)@ == old(self)@.step(bytes@).0,
            yields(r, old(self)@.step(bytes@).1),
            item_wf(r),
    {
        if self.is_finished() {
            return None;
        }
        let ghost buffer = self.pending@ + bytes@;
        let direct = match self.framing {
            Framing::PerDelivery => self.pending.len() == 0,
            Framing::Reassemble => false,
        };
        let delivery = if direct {
            assert(buffer == bytes@);
            assert(buffer.take(buffer.len() as int) == buffer);
            assert(buffer.skip(buffer.len() as int) == self.pending@);
            decode_delivery(bytes)
        } else {
            append_bytes(&mut self.pending, bytes);
            let at = match self.framing {
                Framing::PerDelivery => self.pending.len(),
                Framing::Reassemble => complete_length(&self.pending),
            };
            proof {
                lemma_complete_len(buffer);
            }
            let rest = self.pending.split_off(at);
            assert(self.pending@ == buffer.take(at as int));
            assert(rest@ == buffer.skip(at as int));
            let delivery = decode_delivery(self.pending.as_slice());
            self.pending = rest;
            delivery
        };
        let (item, ended) = item_from(delivery, self.policy);
        if ended {
            self.state = StreamState::Terminated;
            self.pending = Vec::new();
        }
        item
    }

    /// Takes note that the transport failed.
    pub fn on_transport_error(&mut self, reason: String) -> (r: Option<StreamItem>)
        ensures
            final(self)@ == old(self)@.fail(reason@).0,
            yields(r, old(self)@.fail(reason@).1),
    {
        if self.is_finished() {
            return None;
        }
        self.state = StreamState::Errored;
        self.pending = Vec::new();
        Some(Err(ApiError { message: reason }))
    }

    /// Takes note that the transport has no more bytes, and hands out the last
    /// item, if there is one.
    pub fn on_end(&mut self) -> (r: Option<StreamItem>)
        ensures
            final(self)@ == old(self)@.finish().0,
            yields(r, old(self)@.finish().1),
            item_wf(r),
    {
        if self.is_finished() {
            return None;
        }
        self.state = StreamState::Terminated;
        if self.pending.len() == 0 {
            assert(self.pending@ == Seq::<u8>::empty());
            return None;
        }
        let delivery = decode_delivery(self.pending.as_slice());
        self.pending = Vec::new();
        let (item, _) = item_from(delivery, self.policy);
        item
    }
}

} // verus!
