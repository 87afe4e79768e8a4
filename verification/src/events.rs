//! The event envelope: the unit exchanged between producer and consumer. It
//! owns the payload bytes, declares which serialization and compression were
//! actually applied, and carries the lifecycle timestamps used for latency
//! instrumentation. Construction applies the "compress only if it helps"
//! policy; decoding is its exact inverse.
//!
//! The module also holds the event-type identifier and a filter over it.

use vstd::prelude::*;

use crate::clock::{now_micros, now_millis};
use crate::compression::{
    CodecError, LZ4_MAX_INPUT, compress_data, compressed_image, decodes_to, decompress_data,
    spec_decode_outcome,
};
use crate::config::{CompressionLevel, CompressionType, SerializationProtocol, spec_family_of};

verus! {

/// The identifier of an event's kind: a closed catalog of the kinds the
/// pipeline knows, with an open extension case for externally defined ones.
/// The envelope never interprets it.
#[derive(Clone, Copy, Debug, PartialEq, Eq, Hash, Structural)]
pub enum EventType {
    Swap,
    Trade,
    PoolCreate,
    Liquidity,
    Transfer,
    Account,
    Block,
    Unknown,
    /// An externally defined kind, carried by its numeric tag.
    Custom(u64),
}

/// Relies on uuid::Uuid::new_v4 and its Display form: a fresh random
/// identifier rendered as the 36-character hyphenated text form. Nothing
/// more is promised: the value is random. Like the uuid crate itself, this
/// aborts the process if the operating system's randomness source fails —
/// an environmental failure on a par with allocation failure, not tied to
/// any input.
#[verifier::external_body]
fn fresh_event_id() -> (r: String)
    ensures
        r@.len() == 36,
{
    uuid::Uuid::new_v4().to_string()
}

/// The event message exchanged between server and client, in a
/// self-describing format: the payload together with the serialization and
/// compression actually applied, and timestamps for performance analysis.
#[derive(Clone, Debug)]
pub struct EventMessage {
    pub event_id: String,
    pub event_type: EventType,
    /// The serialized and possibly compressed payload bytes.
    pub data: Vec<u8>,
    /// Creation time, in milliseconds since the Unix epoch.
    pub timestamp: u64,
    pub serialization_format: SerializationProtocol,
    pub compression_format: CompressionLevel,
    /// Whether `data` really is compressed.
    pub is_compressed: bool,
    /// The pre-compression size; present exactly when `is_compressed`.
    pub original_size: Option<usize>,
    /// Producer-side lifecycle timestamps, microseconds since the Unix
    /// epoch.
    pub grpc_arrival_time: u64,
    pub parsing_time: u64,
    pub completion_time: u64,
    /// Consumer-side timestamps, set once processing starts and ends.
    pub client_processing_start: Option<u64>,
    pub client_processing_end: Option<u64>,
}

impl EventMessage {
    /// The payload carries exactly the pre-transform bytes `x` under the
    /// declared metadata: either stored as they are, or as their compressed
    /// image with the pre-compression size recorded beside them.
    pub open spec fn encodes(self, x: Seq<u8>) -> bool {
        if self.is_compressed {
            &&& self.data@ == compressed_image(x, self.compression_format)
            &&& self.original_size matches Some(n) && n == x.len()
            &&& (spec_family_of(self.compression_format) == CompressionType::LZ4 ==> x.len()
                <= LZ4_MAX_INPUT)
        } else {
            self.data@ == x
        }
    }

    /// The envelope's hard invariant: the payload is never larger than the
    /// bytes it stands for, and a compressed payload is strictly smaller,
    /// with the original size declared beside it.
    pub open spec fn well_formed_for(self, x: Seq<u8>) -> bool {
        &&& self.encodes(x)
        &&& self.data@.len() <= x.len()
        &&& (self.is_compressed ==> self.data@.len() < x.len())
        &&& (!self.is_compressed ==> self.original_size is None)
    }

    /// Build an envelope for `data`, deciding compression in one step.
    ///
    /// The payload is compressed exactly when a codec is requested, the
    /// codec can take the input, and its output is strictly smaller than
    /// the data; otherwise — including when the codec fails — the original
    /// bytes are stored unchanged, so a consumer never receives a payload
    /// larger than the uncompressed form.
    pub fn new(
        event_type: EventType,
        data: Vec<u8>,
        serialization_format: SerializationProtocol,
        compression_format: CompressionLevel,
        is_compressed: bool,
    ) -> (r: EventMessage)
        ensures
            r.well_formed_for(data@),
            r.event_type == event_type,
            r.serialization_format == serialization_format,
            r.compression_format == compression_format,
            r.is_compressed == (is_compressed && compression_format
                != CompressionLevel::NoCompression && compressed_image(
                data@,
                compression_format,
            ).len() < data@.len() && (spec_family_of(compression_format) == CompressionType::LZ4
                ==> data@.len() <= LZ4_MAX_INPUT)),
            r.is_compressed ==> r.original_size == Some(data@.len() as usize),
            r.is_compressed ==> r.data@.len() > 0,
            !r.is_compressed ==> r.data@ == data@,
            r.event_id@.len() == 36,
            r.parsing_time == 0,
            r.completion_time == 0,
            r.client_processing_start is None,
            r.client_processing_end is None,
    {
        proof {
            vstd::std_specs::vec::axiom_spec_len(&data);
        }
        let arrival = now_micros();
        let now = arrival / 1000;
        let event_id = fresh_event_id();

        let resolved: (Vec<u8>, Option<usize>, bool) = if is_compressed && compression_format
            != CompressionLevel::NoCompression {
            let attempt = compress_data(data.as_slice(), compression_format);
            resolve_compression(data, attempt)
        } else {
            (data, None, false)
        };
        let (final_data, final_original_size, final_is_compressed) = resolved;

        EventMessage {
            event_id,
            event_type,
            data: final_data,
            timestamp: now,
            serialization_format,
            compression_format,
            is_compressed: final_is_compressed,
            original_size: final_original_size,
            grpc_arrival_time: arrival,
            parsing_time: 0,
            completion_time: 0,
            client_processing_start: None,
            client_processing_end: None,
        }
    }

    /// Record the arrival timestamp, in microseconds.
    pub fn set_grpc_arrival_time_at(&mut self, t: u64)
        ensures
            *final (self) == (EventMessage { grpc_arrival_time: t, ..*old(self) }),
    {
        self.grpc_arrival_time = t;
    }

    /// Record the arrival timestamp from the wall clock.
    pub fn set_grpc_arrival_time(&mut self)
        ensures
            *final (self) == (EventMessage { grpc_arrival_time: final (self).grpc_arrival_time, ..*old(self) }),
    {
        let t = now_micros();
        self.set_grpc_arrival_time_at(t);
    }

    /// Record the parsing timestamp, in microseconds.
    pub fn set_parsing_time_at(&mut self, t: u64)
        ensures
            *final (self) == (EventMessage { parsing_time: t, ..*old(self) }),
    {
        self.parsing_time = t;
    }

    /// Record the parsing timestamp from the wall clock.
    pub fn set_parsing_time(&mut self)
        ensures
            *final (self) == (EventMessage { parsing_time: final (self).parsing_time, ..*old(self) }),
    {
        let t = now_micros();
        self.set_parsing_time_at(t);
    }

    /// Record the completion timestamp, in microseconds.
    pub fn set_completion_time_at(&mut self, t: u64)
        ensures
            *final (self) == (EventMessage { completion_time: t, ..*old(self) }),
    {
        self.completion_time = t;
    }

    /// Record the completion timestamp from the wall clock.
    pub fn set_completion_time(&mut self)
        ensures
            *final (self) == (EventMessage { completion_time: final (self).completion_time, ..*old(self) }),
    {
        let t = now_micros();
        self.set_completion_time_at(t);
    }

    /// Record when the client started processing, in microseconds.
    pub fn set_client_processing_start_at(&mut self, t: u64)
        ensures
            *final (self) == (EventMessage {
                client_processing_start: Some(t),
                ..*old(self)
            }),
    {
        self.client_processing_start = Some(t);
    }

    /// Record from the wall clock when the client started processing.
    pub fn set_client_processing_start(&mut self)
        ensures
            *final (self) == (EventMessage {
                client_processing_start: final (self).client_processing_start,
                ..*old(self)
            }),
            final (self).client_processing_start is Some,
    {
        let t = now_micros();
        self.set_client_processing_start_at(t);
    }

    /// Record when the client finished processing, in microseconds.
    pub fn set_client_processing_end_at(&mut self, t: u64)
        ensures
            *final (self) == (EventMessage {
                client_processing_end: Some(t),
                ..*old(self)
            }),
    {
        self.client_processing_end = Some(t);
    }

    /// Record from the wall clock when the client finished processing.
    pub fn set_client_processing_end(&mut self)
        ensures
            *final (self) == (EventMessage {
                client_processing_end: final (self).client_processing_end,
                ..*old(self)
            }),
            final (self).client_processing_end is Some,
    {
        let t = now_micros();
        self.set_client_processing_end_at(t);
    }

    /// The client's processing span: defined only when both client
    /// timestamps are set in order. `None` on a partially populated or
    /// inconsistent envelope, a defensive default.
    pub open spec fn spec_client_processing_time(self) -> Option<u64> {
        match (self.client_processing_start, self.client_processing_end) {
            (Some(s), Some(e)) => if s <= e {
                Some((e - s) as u64)
            } else {
                None
            },
            _ => None,
        }
    }

    /// Microseconds the client spent processing, when both client
    /// timestamps are set in order.
    pub fn get_total_processing_time(&self) -> (r: Option<u64>)
        ensures
            r == self.spec_client_processing_time(),
    {
        match (self.client_processing_start, self.client_processing_end) {
            (Some(s), Some(e)) => if s <= e {
                Some(e - s)
            } else {
                None
            },
            _ => None,
        }
    }

    /// The server-side span: completion minus arrival when both are
    /// positive and in order, else 0 — a defensive default for partially
    /// populated envelopes, not a true zero duration.
    pub open spec fn spec_server_processing_time(self) -> u64 {
        if self.completion_time > 0 && self.grpc_arrival_time > 0 && self.grpc_arrival_time
            <= self.completion_time {
            (self.completion_time - self.grpc_arrival_time) as u64
        } else {
            0
        }
    }

    /// Microseconds between arrival and completion on the server.
    pub fn get_server_processing_time(&self) -> (r: u64)
        ensures
            r == self.spec_server_processing_time(),
    {
        if self.completion_time > 0 && self.grpc_arrival_time > 0 && self.grpc_arrival_time
            <= self.completion_time {
            self.completion_time - self.grpc_arrival_time
        } else {
            0
        }
    }

    /// Server-side span plus client-side span, when the latter is defined;
    /// saturates at `u64::MAX`.
    pub open spec fn spec_end_to_end_latency(self) -> Option<u64> {
        match self.spec_client_processing_time() {
            Some(c) => if self.spec_server_processing_time() + c <= u64::MAX {
                Some((self.spec_server_processing_time() + c) as u64)
            } else {
                Some(u64::MAX)
            },
            None => None,
        }
    }

    /// Total microseconds from server arrival to client completion: the
    /// server-side span plus the client-side span, when the latter is
    /// defined.
    pub fn get_end_to_end_latency(&self) -> (r: Option<u64>)
        ensures
            r == self.spec_end_to_end_latency(),
    {
        let server = self.get_server_processing_time();
        match self.get_total_processing_time() {
            Some(c) => if server <= u64::MAX - c {
                Some(server + c)
            } else {
                Some(u64::MAX)
            },
            None => None,
        }
    }

    /// The payload's size in bytes.
    pub fn get_data_size(&self) -> (r: usize)
        ensures
            r == self.data@.len(),
    {
        self.data.len()
    }

    /// The declared pre-compression size, or the payload's own size when no
    /// compression was applied.
    pub fn get_original_size(&self) -> (r: usize)
        ensures
            r == match self.original_size {
                Some(n) => n,
                None => self.data@.len() as usize,
            },
    {
        match self.original_size {
            Some(n) => n,
            None => self.data.len(),
        }
    }

    /// The compressed size as thousandths of the declared original size;
    /// defined only when the envelope is compressed. 0 when the declared
    /// original size is 0, a defensive default; capped at `u64::MAX`.
    pub open spec fn spec_compression_ratio_permille(self) -> Option<u64> {
        match self.original_size {
            Some(n) => if self.is_compressed {
                if n > 0 {
                    if self.data@.len() as int * 1000 / n as int <= u64::MAX as int {
                        Some((self.data@.len() as int * 1000 / n as int) as u64)
                    } else {
                        Some(u64::MAX)
                    }
                } else {
                    Some(0)
                }
            } else {
                None
            },
            None => None,
        }
    }

    /// The compression ratio in thousandths (e.g. 400 when 1000 bytes were
    /// stored as 400), when the envelope is compressed.
    pub fn get_compression_ratio(&self) -> (r: Option<u64>)
        ensures
            r == self.spec_compression_ratio_permille(),
    {
        match self.original_size {
            Some(n) => if self.is_compressed {
                if n > 0 {
                    let scaled: u128 = self.data.len() as u128 * 1000;
                    let ratio: u128 = scaled / (n as u128);
                    if ratio <= u64::MAX as u128 {
                        Some(ratio as u64)
                    } else {
                        Some(u64::MAX)
                    }
                } else {
                    Some(0)
                }
            } else {
                None
            },
            None => None,
        }
    }

    /// What recovering the pre-transform bytes yields: the payload itself
    /// when uncompressed, else the declared codec's decode of the payload
    /// under the declared original size; `None` is the corrupt case.
    pub open spec fn spec_decoded_payload(self) -> Option<Seq<u8>> {
        if self.is_compressed {
            spec_decode_outcome(self.data@, self.compression_format, self.original_size)
        } else {
            Some(self.data@)
        }
    }

    /// Recover the pre-transform bytes.
    ///
    /// An uncompressed payload is returned unchanged. A compressed one is
    /// handed to the codec abstraction's inverse transform under the
    /// declared codec and size: the result is exactly `spec_decoded_payload`,
    /// so whenever the envelope really encodes some bytes `x` the result is
    /// exactly `x`, and a payload that the declared codec cannot decode
    /// surfaces as `CodecError::CorruptEnvelope`, never silently.
    pub fn get_decompressed_data(&self) -> (r: Result<Vec<u8>, CodecError>)
        ensures
            forall|x: Seq<u8>| self.encodes(x) ==> (r matches Ok(v) && v@ == x),
            self.spec_decoded_payload() matches Some(w) ==> (r matches Ok(v) && v@ == w),
            self.spec_decoded_payload() is None ==> r is Err,
            !self.is_compressed ==> (r matches Ok(v) && v@ == self.data@),
            r is Err ==> r == Err::<Vec<u8>, CodecError>(CodecError::CorruptEnvelope),
    {
        if self.is_compressed {
            let r = decompress_data(
                self.data.as_slice(),
                self.compression_format,
                self.original_size,
            );
            proof {
                assert forall|x: Seq<u8>| self.encodes(x) implies (r matches Ok(v) && v@ == x) by {
                    assert(decodes_to(self.data@, self.compression_format, self.original_size, x));
                }
            }
            r
        } else {
            Ok(vstd::slice::slice_to_vec(self.data.as_slice()))
        }
    }

    /// Milliseconds the client spent processing, when both client
    /// timestamps are set in order.
    pub fn client_processing_time_ms(&self) -> (r: Option<u64>)
        ensures
            r == match self.spec_client_processing_time() {
                Some(c) => Some((c / 1000) as u64),
                None => None::<u64>,
            },
    {
        match self.get_total_processing_time() {
            Some(c) => Some(c / 1000),
            None => None,
        }
    }
}

/// Decide an envelope's final payload from a compression attempt: keep the
/// compressed bytes only when the attempt succeeded and strictly shrank the
/// data; otherwise fall back to the original bytes, unchanged. Returns the
/// payload, the declared original size, and whether compression was kept.
pub fn resolve_compression(data: Vec<u8>, attempt: Result<Vec<u8>, CodecError>) -> (r: (
    Vec<u8>,
    Option<usize>,
    bool,
))
    ensures
        r.2 == (attempt matches Ok(c) && c@.len() < data@.len()),
        r.2 ==> (attempt matches Ok(c) && r.0 == c && r.1 == Some(data@.len() as usize)),
        !r.2 ==> r.0 == data && r.1 is None,
{
    match attempt {
        Ok(c) => {
            if c.len() < data.len() {
                let n = data.len();
                (c, Some(n), true)
            } else {
                (data, None, false)
            }
        },
        Err(_) => (data, None, false),
    }
}

/// An event received by a client, before parsing.
#[derive(Clone, Debug)]
pub struct TransactionEvent {
    pub signature: String,
    pub slot: u64,
    pub block_time: Option<i64>,
    /// The serialized event data.
    pub data: Vec<u8>,
}

/// Counters kept about a stream of events.
#[derive(Clone, Debug)]
pub struct EventStats {
    pub total_events: u64,
    pub events_by_type: Vec<(EventType, u64)>,
    /// Mean processing span, in microseconds.
    pub average_processing_time_us: u64,
}

impl Default for EventStats {
    fn default() -> (r: Self)
        ensures
            r.total_events == 0,
            r.events_by_type@.len() == 0,
            r.average_processing_time_us == 0,
    {
        EventStats { total_events: 0, events_by_type: Vec::new(), average_processing_time_us: 0 }
    }
}


/// A JSON-like document after parsing, as the embedding serde layer hands it
/// over. Opaque to this crate: it is carried, never interpreted.
#[verifier::external_type_specification]
#[verifier::external_body]
pub struct ExValue(serde_json::Value);

/// An event after its payload has been parsed into a document.
#[derive(Debug)]
pub struct ParsedEventData {
    pub event_type: EventType,
    pub protocol: String,
    pub data: serde_json::Value,
}

/// Membership test for the keep-every-type-but-`t` rule.
pub open spec fn keep_not_pred(t: EventType) -> spec_fn(EventType) -> bool {
    |x: EventType| x != t
}

/// Membership test against a fixed list of types.
pub open spec fn member_pred(list: Seq<EventType>) -> spec_fn(EventType) -> bool {
    |x: EventType| list.contains(x)
}

/// `base` extended with each element of `add` in order, skipping the ones
/// already present: the shape that repeated add-if-absent produces.
pub open spec fn spec_add_missing(base: Seq<EventType>, add: Seq<EventType>) -> Seq<EventType>
    decreases add.len(),
{
    if add.len() == 0 {
        base
    } else {
        spec_add_missing(
            if base.contains(add[0]) {
                base
            } else {
                base.push(add[0])
            },
            add.drop_first(),
        )
    }
}

/// Pushing onto a list holds exactly the old elements and the new one.
proof fn lemma_push_contains(s: Seq<EventType>, e: EventType, t: EventType)
    ensures
        s.push(e).contains(t) <==> (s.contains(t) || t == e),
{
    if s.push(e).contains(t) {
        let w = choose|w: int| 0 <= w < s.push(e).len() && s.push(e)[w] == t;
        if w < s.len() {
            assert(s[w] == t);
        }
    }
    if s.contains(t) {
        let w = choose|w: int| 0 <= w < s.len() && s[w] == t;
        assert(s.push(e)[w] == t);
    }
    if t == e {
        assert(s.push(e)[s.len() as int] == t);
    }
}

/// Extending by one more candidate appends it exactly when it is still
/// missing.
proof fn lemma_add_missing_push(base: Seq<EventType>, add: Seq<EventType>, e: EventType)
    ensures
        spec_add_missing(base, add.push(e)) == (if spec_add_missing(base, add).contains(e) {
            spec_add_missing(base, add)
        } else {
            spec_add_missing(base, add).push(e)
        }),
    decreases add.len(),
{
    if add.len() == 0 {
        assert(add.push(e)[0] == e);
        assert(add.push(e).drop_first() =~= Seq::<EventType>::empty());
        let stepped = if base.contains(e) {
            base
        } else {
            base.push(e)
        };
        assert(spec_add_missing(base, add.push(e)) == spec_add_missing(
            stepped,
            add.push(e).drop_first(),
        ));
        assert(spec_add_missing(stepped, Seq::<EventType>::empty()) == stepped);
        assert(spec_add_missing(base, add) == base);
    } else {
        assert(add.push(e)[0] == add[0]);
        assert(add.push(e).drop_first() =~= add.drop_first().push(e));
        let base2 = if base.contains(add[0]) {
            base
        } else {
            base.push(add[0])
        };
        lemma_add_missing_push(base2, add.drop_first(), e);
        assert(spec_add_missing(base, add.push(e)) == spec_add_missing(
            base2,
            add.drop_first().push(e),
        ));
        assert(spec_add_missing(base, add) == spec_add_missing(base2, add.drop_first()));
    }
}

/// The extended list holds exactly the members of both inputs.
proof fn lemma_add_missing_contains(base: Seq<EventType>, add: Seq<EventType>, t: EventType)
    ensures
        spec_add_missing(base, add).contains(t) <==> (base.contains(t) || add.contains(t)),
    decreases add.len(),
{
    if add.len() == 0 {
        if add.contains(t) {
            let w = choose|w: int| 0 <= w < add.len() && add[w] == t;
        }
    } else {
        let base2 = if base.contains(add[0]) {
            base
        } else {
            base.push(add[0])
        };
        lemma_add_missing_contains(base2, add.drop_first(), t);
        lemma_push_contains(base, add[0], t);
        if add.contains(t) {
            let w = choose|w: int| 0 <= w < add.len() && add[w] == t;
            if w > 0 {
                assert(add.drop_first()[w - 1] == t);
            }
        }
        if add.drop_first().contains(t) {
            let w = choose|w: int|
                0 <= w < add.drop_first().len() && add.drop_first()[w] == t;
            assert(add[w + 1] == t);
        }
        if add[0] == t {
            assert(add.contains(t)) by {
                assert(add[0] == t);
            }
        }
    }
}

/// Whether `v` holds `t`.
fn contains_type(v: &Vec<EventType>, t: EventType) -> (r: bool)
    ensures
        r == v@.contains(t),
{
    let mut i: usize = 0;
    while i < v.len()
        invariant
            i <= v@.len(),
            forall|j: int| 0 <= j < i ==> v@[j] != t,
        decreases v@.len() - i,
    {
        if v[i] == t {
            return true;
        }
        i = i + 1;
    }
    false
}

/// An equal copy of a list of types.
fn clone_type_vec(v: &Vec<EventType>) -> (r: Vec<EventType>)
    ensures
        r@ == v@,
{
    let mut r: Vec<EventType> = Vec::new();
    let mut i: usize = 0;
    while i < v.len()
        invariant
            i <= v@.len(),
            r@ == v@.take(i as int),
        decreases v@.len() - i,
    {
        r.push(v[i]);
        proof {
            assert(r@ =~= v@.take(i + 1));
        }
        i = i + 1;
    }
    proof {
        assert(v@.take(v@.len() as int) =~= v@);
    }
    r
}

/// The list with every occurrence of `t` removed, order kept.
fn remove_type(v: &Vec<EventType>, t: EventType) -> (r: Vec<EventType>)
    ensures
        r@ == v@.filter(keep_not_pred(t)),
{
    broadcast use Seq::lemma_filter_push;

    let mut r: Vec<EventType> = Vec::new();
    let mut i: usize = 0;
    while i < v.len()
        invariant
            i <= v@.len(),
            r@ == v@.take(i as int).filter(keep_not_pred(t)),
        decreases v@.len() - i,
    {
        proof {
            assert(v@.take(i + 1) =~= v@.take(i as int).push(v@[i as int]));
            v@.take(i as int).lemma_filter_push(v@[i as int], keep_not_pred(t));
            assert(keep_not_pred(t)(v@[i as int]) == (v@[i as int] != t));
        }
        if v[i] != t {
            r.push(v[i]);
        }
        i = i + 1;
    }
    proof {
        assert(v@.take(v@.len() as int) =~= v@);
    }
    r
}

/// Decides which event types pass: a block list always wins; otherwise
/// everything passes when `allow_all` is set, else only the allow list.
#[derive(Clone, Debug)]
pub struct EventTypeFilter {
    pub allowed_types: Vec<EventType>,
    pub blocked_types: Vec<EventType>,
    pub allow_all: bool,
}

impl Default for EventTypeFilter {
    fn default() -> (r: Self)
        ensures
            r.allowed_types@.len() == 0,
            r.blocked_types@.len() == 0,
            r.allow_all == true,
    {
        EventTypeFilter { allowed_types: Vec::new(), blocked_types: Vec::new(), allow_all: true }
    }
}

impl EventTypeFilter {
    /// Whether `t` passes this filter.
    pub open spec fn spec_allows(self, t: EventType) -> bool {
        !self.blocked_types@.contains(t) && (self.allow_all || self.allowed_types@.contains(t))
    }

    /// The default filter: everything passes.
    pub fn new() -> (r: Self)
        ensures
            r.allowed_types@.len() == 0,
            r.blocked_types@.len() == 0,
            r.allow_all == true,
    {
        EventTypeFilter::default()
    }

    /// A filter that passes everything.
    pub fn allow_all() -> (r: Self)
        ensures
            r.allowed_types@.len() == 0,
            r.blocked_types@.len() == 0,
            r.allow_all == true,
    {
        EventTypeFilter { allowed_types: Vec::new(), blocked_types: Vec::new(), allow_all: true }
    }

    /// A filter that passes only the listed types.
    pub fn allow_only(types: Vec<EventType>) -> (r: Self)
        ensures
            r.allowed_types == types,
            r.blocked_types@.len() == 0,
            r.allow_all == false,
    {
        EventTypeFilter { allowed_types: types, blocked_types: Vec::new(), allow_all: false }
    }

    /// A filter that passes everything but the listed types.
    pub fn block_types(types: Vec<EventType>) -> (r: Self)
        ensures
            r.allowed_types@.len() == 0,
            r.blocked_types == types,
            r.allow_all == true,
    {
        EventTypeFilter { allowed_types: Vec::new(), blocked_types: types, allow_all: true }
    }

    /// A filter that passes nothing.
    pub fn disabled() -> (r: Self)
        ensures
            r.allowed_types@.len() == 0,
            r.blocked_types@.len() == 0,
            r.allow_all == false,
    {
        EventTypeFilter { allowed_types: Vec::new(), blocked_types: Vec::new(), allow_all: false }
    }

    /// Whether `event_type` passes: blocked types never do; otherwise
    /// everything when `allow_all`, else only listed types.
    pub fn is_allowed(&self, event_type: &EventType) -> (r: bool)
        ensures
            r == self.spec_allows(*event_type),
    {
        if contains_type(&self.blocked_types, *event_type) {
            return false;
        }
        if self.allow_all {
            return true;
        }
        contains_type(&self.allowed_types, *event_type)
    }

    /// Same decision as `is_allowed`.
    pub fn should_pass(&self, event_type: &EventType) -> (r: bool)
        ensures
            r == self.spec_allows(*event_type),
    {
        self.is_allowed(event_type)
    }

    /// Admit `event_type` explicitly; the filter stops passing everything.
    pub fn add_allowed_type(&mut self, event_type: EventType)
        ensures
            final (self).blocked_types == old(self).blocked_types,
            final (self).allow_all == false,
            old(self).allowed_types@.contains(event_type) ==> final (self).allowed_types
                == old(self).allowed_types,
            !old(self).allowed_types@.contains(event_type) ==> final (self).allowed_types@
                == old(self).allowed_types@.push(event_type),
    {
        if !contains_type(&self.allowed_types, event_type) {
            self.allowed_types.push(event_type);
        }
        self.allow_all = false;
    }

    /// Drop `event_type` from the allow list.
    pub fn remove_allowed_type(&mut self, event_type: &EventType)
        ensures
            final (self).allowed_types@ == old(self).allowed_types@.filter(
                keep_not_pred(*event_type),
            ),
            final (self).blocked_types == old(self).blocked_types,
            final (self).allow_all == old(self).allow_all,
    {
        let kept = remove_type(&self.allowed_types, *event_type);
        self.allowed_types = kept;
    }

    /// Block `event_type` explicitly.
    pub fn add_blocked_type(&mut self, event_type: EventType)
        ensures
            final (self).allowed_types == old(self).allowed_types,
            final (self).allow_all == old(self).allow_all,
            old(self).blocked_types@.contains(event_type) ==> final (self).blocked_types
                == old(self).blocked_types,
            !old(self).blocked_types@.contains(event_type) ==> final (self).blocked_types@
                == old(self).blocked_types@.push(event_type),
    {
        if !contains_type(&self.blocked_types, event_type) {
            self.blocked_types.push(event_type);
        }
    }

    /// Drop `event_type` from the block list.
    pub fn remove_blocked_type(&mut self, event_type: &EventType)
        ensures
            final (self).blocked_types@ == old(self).blocked_types@.filter(
                keep_not_pred(*event_type),
            ),
            final (self).allowed_types == old(self).allowed_types,
            final (self).allow_all == old(self).allow_all,
    {
        let kept = remove_type(&self.blocked_types, *event_type);
        self.blocked_types = kept;
    }

    /// Back to the default: everything passes.
    pub fn clear(&mut self)
        ensures
            final (self).allowed_types@.len() == 0,
            final (self).blocked_types@.len() == 0,
            final (self).allow_all == true,
    {
        self.allowed_types = Vec::new();
        self.blocked_types = Vec::new();
        self.allow_all = true;
    }

    /// The two list lengths and the `allow_all` flag.
    pub fn get_stats(&self) -> (r: (usize, usize, bool))
        ensures
            r.0 == self.allowed_types@.len(),
            r.1 == self.blocked_types@.len(),
            r.2 == self.allow_all,
    {
        (self.allowed_types.len(), self.blocked_types.len(), self.allow_all)
    }

    /// Whether the filter is a no-op: it passes everything.
    pub fn is_empty(&self) -> (r: bool)
        ensures
            r == (self.allow_all && self.blocked_types@.len() == 0),
    {
        self.allow_all && self.blocked_types.len() == 0
    }

    /// The explicit allow list; empty when the filter passes everything,
    /// since the full catalog is open-ended.
    pub fn get_allowed_types(&self) -> (r: Vec<EventType>)
        ensures
            self.allow_all ==> r@.len() == 0,
            !self.allow_all ==> r@ == self.allowed_types@,
    {
        if self.allow_all {
            Vec::new()
        } else {
            clone_type_vec(&self.allowed_types)
        }
    }

    /// The block list.
    pub fn get_blocked_types(&self) -> (r: &Vec<EventType>)
        ensures
            r@ == self.blocked_types@,
    {
        &self.blocked_types
    }

    /// Fold another filter into this one: each type of the other's allow
    /// list is appended to this one's unless already present (first
    /// occurrence wins, order kept), and the block lists likewise; the
    /// result only passes everything when this filter did, the other did,
    /// and the other admitted no explicit types.
    pub fn merge(&mut self, other: &EventTypeFilter)
        ensures
            final (self).allowed_types@ == spec_add_missing(
                old(self).allowed_types@,
                other.allowed_types@,
            ),
            final (self).blocked_types@ == spec_add_missing(
                old(self).blocked_types@,
                other.blocked_types@,
            ),
            forall|t: EventType|
                #[trigger] final (self).allowed_types@.contains(t) <==> (
                old(self).allowed_types@.contains(t) || other.allowed_types@.contains(t)),
            forall|t: EventType|
                #[trigger] final (self).blocked_types@.contains(t) <==> (
                old(self).blocked_types@.contains(t) || other.blocked_types@.contains(t)),
            final (self).allow_all == (old(self).allow_all && other.allowed_types@.len() == 0
                && other.allow_all),
    {
        let mut i: usize = 0;
        while i < other.allowed_types.len()
            invariant
                i <= other.allowed_types@.len(),
                self.blocked_types == old(self).blocked_types,
                self.allow_all == (old(self).allow_all && i == 0),
                self.allowed_types@ == spec_add_missing(
                    old(self).allowed_types@,
                    other.allowed_types@.take(i as int),
                ),
            decreases other.allowed_types@.len() - i,
        {
            proof {
                assert(other.allowed_types@.take(i + 1) =~= other.allowed_types@.take(
                    i as int,
                ).push(other.allowed_types@[i as int]));
                lemma_add_missing_push(
                    old(self).allowed_types@,
                    other.allowed_types@.take(i as int),
                    other.allowed_types@[i as int],
                );
            }
            self.add_allowed_type(other.allowed_types[i]);
            i = i + 1;
        }
        proof {
            assert(other.allowed_types@.take(other.allowed_types@.len() as int)
                =~= other.allowed_types@);
        }
        let mut k: usize = 0;
        while k < other.blocked_types.len()
            invariant
                k <= other.blocked_types@.len(),
                self.allowed_types@ == spec_add_missing(
                    old(self).allowed_types@,
                    other.allowed_types@,
                ),
                self.allow_all == (old(self).allow_all && other.allowed_types@.len() == 0),
                self.blocked_types@ == spec_add_missing(
                    old(self).blocked_types@,
                    other.blocked_types@.take(k as int),
                ),
            decreases other.blocked_types@.len() - k,
        {
            proof {
                assert(other.blocked_types@.take(k + 1) =~= other.blocked_types@.take(
                    k as int,
                ).push(other.blocked_types@[k as int]));
                lemma_add_missing_push(
                    old(self).blocked_types@,
                    other.blocked_types@.take(k as int),
                    other.blocked_types@[k as int],
                );
            }
            self.add_blocked_type(other.blocked_types[k]);
            k = k + 1;
        }
        proof {
            assert(other.blocked_types@.take(other.blocked_types@.len() as int)
                =~= other.blocked_types@);
            assert forall|t: EventType|
                #[trigger] self.allowed_types@.contains(t) <==> (old(
                    self,
                ).allowed_types@.contains(t) || other.allowed_types@.contains(t)) by {
                lemma_add_missing_contains(old(self).allowed_types@, other.allowed_types@, t);
            }
            assert forall|t: EventType|
                #[trigger] self.blocked_types@.contains(t) <==> (old(
                    self,
                ).blocked_types@.contains(t) || other.blocked_types@.contains(t)) by {
                lemma_add_missing_contains(old(self).blocked_types@, other.blocked_types@, t);
            }
        }
        if !other.allow_all {
            self.allow_all = false;
        }
    }
}


/// The character of one decimal digit.
pub open spec fn spec_digit_char(d: int) -> char {
    if d == 0 {
        '0'
    } else if d == 1 {
        '1'
    } else if d == 2 {
        '2'
    } else if d == 3 {
        '3'
    } else if d == 4 {
        '4'
    } else if d == 5 {
        '5'
    } else if d == 6 {
        '6'
    } else if d == 7 {
        '7'
    } else if d == 8 {
        '8'
    } else {
        '9'
    }
}

/// The decimal rendering of a non-negative number.
pub open spec fn spec_u64_chars(n: int) -> Seq<char>
    decreases n,
{
    if n < 10 {
        seq![spec_digit_char(n)]
    } else {
        spec_u64_chars(n / 10).push(spec_digit_char(n % 10))
    }
}

/// Append one decimal digit to `s`.
fn push_digit(s: &mut String, d: u64)
    requires
        d < 10,
    ensures
        final (s)@ == old(s)@ + seq![spec_digit_char(d as int)],
{
    proof {
        reveal_strlit("0");
        reveal_strlit("1");
        reveal_strlit("2");
        reveal_strlit("3");
        reveal_strlit("4");
        reveal_strlit("5");
        reveal_strlit("6");
        reveal_strlit("7");
        reveal_strlit("8");
        reveal_strlit("9");
    }
    if d == 0 {
        s.append("0");
    } else if d == 1 {
        s.append("1");
    } else if d == 2 {
        s.append("2");
    } else if d == 3 {
        s.append("3");
    } else if d == 4 {
        s.append("4");
    } else if d == 5 {
        s.append("5");
    } else if d == 6 {
        s.append("6");
    } else if d == 7 {
        s.append("7");
    } else if d == 8 {
        s.append("8");
    } else {
        s.append("9");
    }
    proof {
        assert(s@ =~= old(s)@ + seq![spec_digit_char(d as int)]);
    }
}

/// The decimal rendering of `n`.
fn u64_to_string(n: u64) -> (r: String)
    ensures
        r@ == spec_u64_chars(n as int),
    decreases n,
{
    if n < 10 {
        let mut s = String::new();
        push_digit(&mut s, n);
        proof {
            assert(s@ =~= seq![spec_digit_char(n as int)]);
        }
        s
    } else {
        let mut s = u64_to_string(n / 10);
        push_digit(&mut s, n % 10);
        s
    }
}

impl EventTypeFilter {
    /// A stricter filter than either input: it only passes everything when
    /// both did, blocks what either blocked (the other's additions appended
    /// unless already present), and intersects the allow lists when both
    /// are explicit (keeping this filter's explicit list when only the
    /// other passes everything, and the other way round).
    pub fn intersect(&self, other: &EventTypeFilter) -> (r: EventTypeFilter)
        ensures
            r.allow_all == (self.allow_all && other.allow_all),
            r.blocked_types@ == spec_add_missing(self.blocked_types@, other.blocked_types@),
            forall|t: EventType|
                #[trigger] r.blocked_types@.contains(t) <==> (self.blocked_types@.contains(t)
                    || other.blocked_types@.contains(t)),
            !self.allow_all && !other.allow_all ==> r.allowed_types@ == self.allowed_types@.filter(
                member_pred(other.allowed_types@),
            ),
            !self.allow_all && other.allow_all ==> r.allowed_types@ == self.allowed_types@,
            self.allow_all && !other.allow_all ==> r.allowed_types@ == other.allowed_types@,
            self.allow_all && other.allow_all ==> r.allowed_types@.len() == 0,
    {
        broadcast use Seq::lemma_filter_push;

        let allow_all = self.allow_all && other.allow_all;

        let mut blocked = clone_type_vec(&self.blocked_types);
        let mut k: usize = 0;
        while k < other.blocked_types.len()
            invariant
                k <= other.blocked_types@.len(),
                blocked@ == spec_add_missing(
                    self.blocked_types@,
                    other.blocked_types@.take(k as int),
                ),
            decreases other.blocked_types@.len() - k,
        {
            proof {
                assert(other.blocked_types@.take(k + 1) =~= other.blocked_types@.take(
                    k as int,
                ).push(other.blocked_types@[k as int]));
                lemma_add_missing_push(
                    self.blocked_types@,
                    other.blocked_types@.take(k as int),
                    other.blocked_types@[k as int],
                );
            }
            if !contains_type(&blocked, other.blocked_types[k]) {
                blocked.push(other.blocked_types[k]);
            }
            k = k + 1;
        }
        proof {
            assert(other.blocked_types@.take(other.blocked_types@.len() as int)
                =~= other.blocked_types@);
            assert forall|t: EventType|
                #[trigger] blocked@.contains(t) <==> (self.blocked_types@.contains(t)
                    || other.blocked_types@.contains(t)) by {
                lemma_add_missing_contains(self.blocked_types@, other.blocked_types@, t);
            }
        }

        let allowed: Vec<EventType> = if !self.allow_all && !other.allow_all {
            let mut kept: Vec<EventType> = Vec::new();
            let mut i: usize = 0;
            while i < self.allowed_types.len()
                invariant
                    i <= self.allowed_types@.len(),
                    kept@ == self.allowed_types@.take(i as int).filter(
                        member_pred(other.allowed_types@),
                    ),
                decreases self.allowed_types@.len() - i,
            {
                proof {
                    assert(self.allowed_types@.take(i + 1) =~= self.allowed_types@.take(
                        i as int,
                    ).push(self.allowed_types@[i as int]));
                    self.allowed_types@.take(i as int).lemma_filter_push(
                        self.allowed_types@[i as int],
                        member_pred(other.allowed_types@),
                    );
                    assert(member_pred(other.allowed_types@)(self.allowed_types@[i as int])
                        == other.allowed_types@.contains(self.allowed_types@[i as int]));
                }
                if contains_type(&other.allowed_types, self.allowed_types[i]) {
                    kept.push(self.allowed_types[i]);
                }
                i = i + 1;
            }
            proof {
                assert(self.allowed_types@.take(self.allowed_types@.len() as int)
                    =~= self.allowed_types@);
            }
            kept
        } else if !self.allow_all {
            clone_type_vec(&self.allowed_types)
        } else if !other.allow_all {
            clone_type_vec(&other.allowed_types)
        } else {
            Vec::new()
        };

        EventTypeFilter { allowed_types: allowed, blocked_types: blocked, allow_all }
    }

    /// What the rendered summary reads.
    pub open spec fn spec_summary_chars(self) -> Seq<char> {
        if self.allow_all && self.blocked_types@.len() == 0 {
            "Allow all events"@
        } else if !self.allow_all && self.allowed_types@.len() == 0 {
            "Block all events"@
        } else if self.allow_all {
            "Allow all except "@ + spec_u64_chars(self.blocked_types@.len() as int) + " types"@
        } else {
            "Allow only "@ + spec_u64_chars(self.allowed_types@.len() as int) + " types"@
        }
    }

    /// A one-line description of what the filter does.
    pub fn get_summary(&self) -> (r: String)
        ensures
            r@ == self.spec_summary_chars(),
    {
        if self.allow_all && self.blocked_types.len() == 0 {
            String::from_str("Allow all events")
        } else if !self.allow_all && self.allowed_types.len() == 0 {
            String::from_str("Block all events")
        } else if self.allow_all {
            let mut s = String::from_str("Allow all except ");
            let num = u64_to_string(self.blocked_types.len() as u64);
            s.append(num.as_str());
            s.append(" types");
            proof {
                assert(s@ =~= "Allow all except "@ + spec_u64_chars(
                    self.blocked_types@.len() as int,
                ) + " types"@);
            }
            s
        } else {
            let mut s = String::from_str("Allow only ");
            let num = u64_to_string(self.allowed_types.len() as u64);
            s.append(num.as_str());
            s.append(" types");
            proof {
                assert(s@ =~= "Allow only "@ + spec_u64_chars(self.allowed_types@.len() as int)
                    + " types"@);
            }
            s
        }
    }
}

} // verus!
