//! The streaming decoder: turns a byte-oriented response body, delivered as
//! chunks of arbitrary size, into the reassembled answer text.
//!
//! The response body is a sequence of newline-terminated records. A record is
//! either the literal terminator `data: [DONE]`, or `data: ` followed by a
//! JSON payload whose shape is an optional `choices` array of objects each
//! carrying an optional `delta.content` text increment. Bytes are buffered
//! verbatim until a full record is assembled, so a chunk boundary may fall
//! anywhere, including inside a multi-byte character.

use vstd::prelude::*;
use vstd::string::StringExecFns;

use crate::error::ChatError;

verus! {

/// One incremental piece of assistant text inside a streaming record.
#[derive(Debug)]
pub struct StreamDelta {
    pub content: Option<String>,
}

/// One entry of a streaming record's `choices` array.
#[derive(Debug)]
pub struct StreamChoice {
    pub index: Option<u32>,
    pub delta: Option<StreamDelta>,
}

/// The decoded JSON payload of one streaming record.
#[derive(Debug)]
pub struct StreamChunk {
    pub choices: Option<Vec<StreamChoice>>,
}

/// The mathematical value of a `StreamDelta`.
#[verifier::ext_equal]
pub struct DeltaView {
    pub content: Option<Seq<char>>,
}

/// The mathematical value of a `StreamChoice`.
#[verifier::ext_equal]
pub struct ChoiceView {
    pub index: Option<u32>,
    pub delta: Option<DeltaView>,
}

/// The mathematical value of a `StreamChunk`.
#[verifier::ext_equal]
pub struct ChunkView {
    pub choices: Option<Seq<ChoiceView>>,
}

impl View for StreamDelta {
    type V = DeltaView;

    open spec fn view(&self) -> DeltaView {
        DeltaView { content: self.content.deep_view() }
    }
}

impl DeepView for StreamDelta {
    type V = DeltaView;

    open spec fn deep_view(&self) -> DeltaView {
        self@
    }
}

impl View for StreamChoice {
    type V = ChoiceView;

    open spec fn view(&self) -> ChoiceView {
        ChoiceView { index: self.index, delta: self.delta.deep_view() }
    }
}

impl DeepView for StreamChoice {
    type V = ChoiceView;

    open spec fn deep_view(&self) -> ChoiceView {
        self@
    }
}

impl View for StreamChunk {
    type V = ChunkView;

    open spec fn view(&self) -> ChunkView {
        ChunkView { choices: self.choices.deep_view() }
    }
}

impl DeepView for StreamChunk {
    type V = ChunkView;

    open spec fn deep_view(&self) -> ChunkView {
        self@
    }
}

/// What the JSON payload of a streaming record parses to: `None` for bytes
/// that are not valid UTF-8 JSON of the expected shape, otherwise the decoded
/// chunk. The result is a function of the bytes alone.
pub uninterp spec fn chunk_of(bytes: Seq<u8>) -> Option<ChunkView>;

/// Relies on serde_json::from_slice: parses the JSON payload of one
/// streaming record. What the payload parses to depends on its bytes alone;
/// `chunk_of` names that result.
#[verifier::external_body]
fn parse_stream_record(bytes: &Vec<u8>) -> (r: Option<StreamChunk>)
    ensures
        r.deep_view() == chunk_of(bytes@),
{
    let v: serde_json::Value = match serde_json::from_slice(bytes) {
        Ok(v) => v,
        Err(_) => return None,
    };
    let choices = v.get("choices").and_then(serde_json::Value::as_array).map(|arr| {
        arr.iter().map(|c| StreamChoice {
            index: c.get("index").and_then(serde_json::Value::as_u64).and_then(|n| u32::try_from(n).ok()),
            delta: c.get("delta").map(|d| StreamDelta {
                content: d.get("content").and_then(serde_json::Value::as_str).map(str::to_string),
            }),
        }).collect()
    });
    Some(StreamChunk { choices })
}

/// The text one choice contributes to the answer: its delta's content
/// followed by a line feed, or nothing when the content is absent or empty.
pub open spec fn delta_text(c: ChoiceView) -> Seq<char> {
    match c.delta {
        Some(d) => match d.content {
            Some(t) => if t.len() > 0 {
                t.push('\n')
            } else {
                Seq::empty()
            },
            None => Seq::empty(),
        },
        None => Seq::empty(),
    }
}

/// The concatenated contributions of a list of choices, in order.
pub open spec fn choices_text(cs: Seq<ChoiceView>) -> Seq<char>
    decreases cs.len(),
{
    if cs.len() == 0 {
        Seq::empty()
    } else {
        delta_text(cs[0]) + choices_text(cs.drop_first())
    }
}

/// The text one decoded chunk contributes to the answer.
pub open spec fn chunk_text(ch: ChunkView) -> Seq<char> {
    match ch.choices {
        Some(cs) => choices_text(cs),
        None => Seq::empty(),
    }
}

proof fn lemma_choices_text_push(cs: Seq<ChoiceView>, x: ChoiceView)
    ensures
        choices_text(cs.push(x)) == choices_text(cs) + delta_text(x),
    decreases cs.len(),
{
    if cs.len() == 0 {
        assert(cs.push(x)[0] == x);
        assert(cs.push(x).drop_first() =~= Seq::<ChoiceView>::empty());
        assert(choices_text(Seq::<ChoiceView>::empty()) == Seq::<char>::empty());
        assert(choices_text(cs.push(x)) == delta_text(x) + Seq::<char>::empty());
        assert(delta_text(x) + Seq::<char>::empty() =~= delta_text(x));
        assert(choices_text(cs) + delta_text(x) =~= delta_text(x));
    } else {
        assert(cs.push(x)[0] == cs[0]);
        assert(cs.push(x).drop_first() =~= cs.drop_first().push(x));
        lemma_choices_text_push(cs.drop_first(), x);
        assert(delta_text(cs[0]) + (choices_text(cs.drop_first()) + delta_text(x)) =~= (delta_text(
            cs[0],
        ) + choices_text(cs.drop_first())) + delta_text(x));
    }
}

/// Extracts from one decoded chunk the text it contributes to the answer:
/// each non-empty content increment followed by a line feed, in order.
pub fn chunk_texts(chunk: &StreamChunk) -> (out: String)
    ensures
        out@ == chunk_text(chunk@),
{
    let mut out = String::new();
    proof {
        reveal_strlit("\n");
    }
    match &chunk.choices {
        None => {},
        Some(cs) => {
            let ghost cv = cs.deep_view();
            let mut i: usize = 0;
            proof {
                assert(cv.take(0) =~= Seq::<ChoiceView>::empty());
            }
            while i < cs.len()
                invariant
                    i <= cs.len(),
                    cv == cs.deep_view(),
                    out@ == choices_text(cv.take(i as int)),
                decreases cs.len() - i,
            {
                match &cs[i].delta {
                    Some(d) => match &d.content {
                        Some(t) => {
                            if !t.as_str().is_empty() {
                                out.append(t.as_str());
                                out.append("\n");
                                proof {
                                    reveal_strlit("\n");
                                    assert("\n"@ =~= seq!['\n']);
                                    assert(t@.push('\n') =~= t@ + "\n"@);
                                }
                            }
                        },
                        None => {},
                    },
                    None => {},
                }
                proof {
                    assert(cv[i as int] == cs@[i as int].deep_view());
                    assert(cv.take(i + 1) =~= cv.take(i as int).push(cv[i as int]));
                    lemma_choices_text_push(cv.take(i as int), cv[i as int]);
                }
                i = i + 1;
            }
            proof {
                assert(cv.take(cs.len() as int) =~= cv);
            }
        },
    }
    out
}

/// The bytes of the fixed record marker `data: `.
pub open spec fn data_prefix() -> Seq<u8> {
    seq![100u8, 97u8, 116u8, 97u8, 58u8, 32u8]
}

/// The bytes of the literal terminator record `data: [DONE]`.
pub open spec fn done_record() -> Seq<u8> {
    seq![100u8, 97u8, 116u8, 97u8, 58u8, 32u8, 91u8, 68u8, 79u8, 78u8, 69u8, 93u8]
}

/// Whether a record starts with the `data: ` marker.
pub open spec fn is_data_record(rec: Seq<u8>) -> bool {
    rec.len() >= 6 && rec.take(6) == data_prefix()
}

/// The text one logical record contributes to the answer: the terminator and
/// unmarked records contribute nothing; a marked record contributes what its
/// JSON payload decodes to; `None` stands for a malformed payload, which
/// fails the whole operation.
pub open spec fn record_texts(rec: Seq<u8>) -> Option<Seq<char>> {
    if rec == done_record() {
        Some(Seq::empty())
    } else if is_data_record(rec) {
        match chunk_of(rec.skip(6)) {
            Some(ch) => Some(chunk_text(ch)),
            None => None,
        }
    } else {
        Some(Seq::empty())
    }
}

fn is_done_record(rec: &Vec<u8>) -> (r: bool)
    ensures
        r == (rec@ == done_record()),
{
    if rec.len() != 12 {
        return false;
    }
    let r = rec[0] == 100 && rec[1] == 97 && rec[2] == 116 && rec[3] == 97 && rec[4] == 58
        && rec[5] == 32 && rec[6] == 91 && rec[7] == 68 && rec[8] == 79 && rec[9] == 78 && rec[10]
        == 69 && rec[11] == 93;
    proof {
        if r {
            assert(rec@ =~= done_record());
        } else {
            if rec@ == done_record() {
                assert(rec@[0] == 100 && rec@[1] == 97 && rec@[2] == 116 && rec@[3] == 97 && rec@[4]
                    == 58 && rec@[5] == 32 && rec@[6] == 91 && rec@[7] == 68 && rec@[8] == 79
                    && rec@[9] == 78 && rec@[10] == 69 && rec@[11] == 93);
            }
        }
    }
    r
}

fn has_data_prefix(rec: &Vec<u8>) -> (r: bool)
    ensures
        r == is_data_record(rec@),
{
    if rec.len() < 6 {
        return false;
    }
    let r = rec[0] == 100 && rec[1] == 97 && rec[2] == 116 && rec[3] == 97 && rec[4] == 58 && rec[5]
        == 32;
    proof {
        if r {
            assert(rec@.take(6) =~= data_prefix());
        } else {
            if rec@.take(6) == data_prefix() {
                assert(rec@[0] == rec@.take(6)[0] && rec@[1] == rec@.take(6)[1] && rec@[2]
                    == rec@.take(6)[2] && rec@[3] == rec@.take(6)[3] && rec@[4] == rec@.take(6)[4]
                    && rec@[5] == rec@.take(6)[5]);
            }
        }
    }
    r
}

/// Decodes one assembled record: `Some` carries the text it contributes,
/// `None` reports a malformed payload.
fn process_record(rec: &Vec<u8>) -> (r: Option<String>)
    ensures
        match (r, record_texts(rec@)) {
            (Some(s), Some(t)) => s@ == t,
            (None, None) => true,
            _ => false,
        },
{
    if is_done_record(rec) {
        return Some(String::new());
    }
    if !has_data_prefix(rec) {
        return Some(String::new());
    }
    let mut payload: Vec<u8> = Vec::new();
    let mut i: usize = 6;
    while i < rec.len()
        invariant
            6 <= i <= rec.len(),
            rec@.len() >= 6,
            payload@ == rec@.subrange(6, i as int),
        decreases rec.len() - i,
    {
        payload.push(rec[i]);
        proof {
            assert(payload@ =~= rec@.subrange(6, i + 1));
        }
        i = i + 1;
    }
    proof {
        assert(payload@ =~= rec@.skip(6));
    }
    match parse_stream_record(&payload) {
        None => None,
        Some(chunk) => Some(chunk_texts(&chunk)),
    }
}

/// The abstract state of the decoder: the bytes of the record being
/// assembled, the answer accumulated so far, and whether a malformed record
/// was seen.
#[verifier::ext_equal]
pub struct DecoderModel {
    pub buf: Seq<u8>,
    pub out: Seq<char>,
    pub failed: bool,
}

/// The state a fresh decoder starts in.
pub open spec fn init_model() -> DecoderModel {
    DecoderModel { buf: Seq::empty(), out: Seq::empty(), failed: false }
}

/// One byte of input advances the decoder: a line feed closes the current
/// record, whose contribution is appended to the answer; any other byte is
/// buffered. An empty record is skipped; after a malformed record nothing
/// changes any more.
pub open spec fn step(m: DecoderModel, b: u8) -> DecoderModel {
    if m.failed {
        m
    } else if b == 10 {
        if m.buf.len() == 0 {
            m
        } else {
            match record_texts(m.buf) {
                Some(t) => DecoderModel { buf: Seq::empty(), out: m.out + t, failed: false },
                None => DecoderModel { buf: Seq::empty(), out: m.out, failed: true },
            }
        }
    } else {
        DecoderModel { buf: m.buf.push(b), out: m.out, failed: m.failed }
    }
}

/// The decoder state after consuming a whole byte sequence from state `m`.
pub open spec fn run(m: DecoderModel, s: Seq<u8>) -> DecoderModel
    decreases s.len(),
{
    if s.len() == 0 {
        m
    } else {
        run(step(m, s[0]), s.drop_first())
    }
}

/// Consuming two byte sequences one after the other is consuming their
/// concatenation.
pub proof fn lemma_run_append(m: DecoderModel, s1: Seq<u8>, s2: Seq<u8>)
    ensures
        run(m, s1 + s2) == run(run(m, s1), s2),
    decreases s1.len(),
{
    if s1.len() == 0 {
        assert(s1 + s2 =~= s2);
    } else {
        assert((s1 + s2).len() > 0);
        assert((s1 + s2)[0] == s1[0]);
        assert((s1 + s2).drop_first() =~= s1.drop_first() + s2);
        lemma_run_append(step(m, s1[0]), s1.drop_first(), s2);
    }
}

proof fn lemma_run_snoc(m: DecoderModel, s: Seq<u8>, b: u8)
    ensures
        run(m, s.push(b)) == step(run(m, s), b),
{
    assert(s.push(b) =~= s + seq![b]);
    lemma_run_append(m, s, seq![b]);
    assert(seq![b].drop_first() =~= Seq::<u8>::empty());
    assert(seq![b][0] == b);
    assert(run(step(run(m, s), b), Seq::<u8>::empty()) == step(run(m, s), b));
    assert(run(run(m, s), seq![b]) == step(run(m, s), b));
}

/// Reassembles the answer from the chunks it is fed, one record at a time.
/// Feeding is insensitive to how the byte stream was cut into chunks: the
/// state after feeding is a function of the concatenated bytes alone.
pub struct StreamDecoder {
    buffer: Vec<u8>,
    answer: String,
    failed: bool,
}

impl View for StreamDecoder {
    type V = DecoderModel;

    closed spec fn view(&self) -> DecoderModel {
        DecoderModel { buf: self.buffer@, out: self.answer@, failed: self.failed }
    }
}

impl StreamDecoder {
    pub fn new() -> (d: StreamDecoder)
        ensures
            d@ == init_model(),
    {
        let d = StreamDecoder { buffer: Vec::new(), answer: String::new(), failed: false };
        proof {
            assert(d@ =~= init_model());
        }
        d
    }

    /// Consumes one chunk of the response body. Returns the text this chunk
    /// contributed to the answer, for forwarding to a live output sink.
    pub fn push_chunk(&mut self, chunk: &Vec<u8>) -> (emitted: String)
        ensures
            final(self)@ == run(old(self)@, chunk@),
            final(self)@.out == old(self)@.out + emitted@,
    {
        let ghost m0 = self@;
        let mut emitted = String::new();
        let mut j: usize = 0;
        proof {
            assert(chunk@.take(0) =~= Seq::<u8>::empty());
            assert(m0.out + emitted@ =~= m0.out);
        }
        while j < chunk.len()
            invariant
                j <= chunk.len(),
                self@ == run(m0, chunk@.take(j as int)),
                self@.out == m0.out + emitted@,
            decreases chunk.len() - j,
        {
            let ghost pre = self@;
            let b = chunk[j];
            if !self.failed {
                if b == 10 {
                    if self.buffer.len() > 0 {
                        match process_record(&self.buffer) {
                            Some(t) => {
                                self.answer.append(t.as_str());
                                emitted.append(t.as_str());
                                self.buffer.clear();
                            },
                            None => {
                                self.failed = true;
                                self.buffer.clear();
                            },
                        }
                    }
                } else {
                    self.buffer.push(b);
                }
            }
            proof {
                assert(self@ =~= step(pre, b));
                assert(chunk@.take(j + 1) =~= chunk@.take(j as int).push(b));
                lemma_run_snoc(m0, chunk@.take(j as int), b);
            }
            j = j + 1;
        }
        proof {
            assert(chunk@.take(chunk.len() as int) =~= chunk@);
        }
        emitted
    }

    /// Closes the stream: the reassembled answer, or the parse failure when
    /// some record's payload was malformed. Bytes of an unterminated final
    /// record are discarded.
    pub fn finish(self) -> (r: Result<String, ChatError>)
        ensures
            match r {
                Ok(s) => !self@.failed && s@ == self@.out,
                Err(e) => self@.failed && e == ChatError::Parse,
            },
    {
        if self.failed {
            Err(ChatError::Parse)
        } else {
            Ok(self.answer)
        }
    }
}

/// The decoder state after feeding a list of chunks in order.
pub open spec fn run_chunks(m: DecoderModel, chunks: Seq<Seq<u8>>) -> DecoderModel
    decreases chunks.len(),
{
    if chunks.len() == 0 {
        m
    } else {
        run_chunks(run(m, chunks[0]), chunks.drop_first())
    }
}

/// Feeding a list of chunks is feeding their concatenation.
pub proof fn lemma_run_chunks_flatten(m: DecoderModel, chunks: Seq<Seq<u8>>)
    ensures
        run_chunks(m, chunks) == run(m, chunks.flatten()),
    decreases chunks.len(),
{
    if chunks.len() == 0 {
        assert(chunks.flatten() =~= Seq::<u8>::empty());
    } else {
        assert(chunks.flatten() == chunks.first() + chunks.drop_first().flatten());
        lemma_run_append(m, chunks[0], chunks.drop_first().flatten());
        lemma_run_chunks_flatten(run(m, chunks[0]), chunks.drop_first());
    }
}

/// How a logical byte stream is cut into chunks makes no difference: two
/// chunk lists carrying the same bytes leave a fresh decoder in the same
/// state, so the reassembled answer is the same.
pub proof fn lemma_chunking_immaterial(chunks1: Seq<Seq<u8>>, chunks2: Seq<Seq<u8>>)
    requires
        chunks1.flatten() == chunks2.flatten(),
    ensures
        run_chunks(init_model(), chunks1) == run_chunks(init_model(), chunks2),
{
    lemma_run_chunks_flatten(init_model(), chunks1);
    lemma_run_chunks_flatten(init_model(), chunks2);
}

/// After a malformed record the decoder changes no more.
pub proof fn lemma_failed_sticky(m: DecoderModel, s: Seq<u8>)
    requires
        m.failed,
    ensures
        run(m, s) == m,
    decreases s.len(),
{
    if s.len() > 0 {
        lemma_failed_sticky(m, s.drop_first());
    }
}

/// Bytes without a line feed only grow the record buffer.
proof fn lemma_run_fill(m: DecoderModel, s: Seq<u8>)
    requires
        !m.failed,
        forall|i: int| 0 <= i < s.len() ==> s[i] != 10,
    ensures
        run(m, s) == (DecoderModel { buf: m.buf + s, out: m.out, failed: false }),
    decreases s.len(),
{
    if s.len() == 0 {
        assert(m.buf + s =~= m.buf);
        assert(m =~= DecoderModel { buf: m.buf + s, out: m.out, failed: false });
    } else {
        assert(s[0] != 10);
        let m1 = step(m, s[0]);
        assert(m1 == DecoderModel { buf: m.buf.push(s[0]), out: m.out, failed: false });
        lemma_run_fill(m1, s.drop_first());
        assert(m.buf.push(s[0]) + s.drop_first() =~= m.buf + s);
    }
}

/// One whole record followed by its line feed, consumed from a state whose
/// buffer is empty, contributes exactly its decoded text.
proof fn lemma_run_record(m: DecoderModel, rec: Seq<u8>, t: Seq<char>)
    requires
        !m.failed,
        m.buf.len() == 0,
        rec.len() > 0,
        forall|i: int| 0 <= i < rec.len() ==> rec[i] != 10,
        record_texts(rec) == Some(t),
    ensures
        run(m, rec.push(10)) == (DecoderModel {
            buf: Seq::empty(),
            out: m.out + t,
            failed: false,
        }),
{
    lemma_run_fill(m, rec);
    assert(m.buf + rec =~= rec);
    lemma_run_snoc(m, rec, 10);
}

/// The concatenated contributions of a list of records, in order.
pub open spec fn records_out(records: Seq<Seq<u8>>) -> Seq<char>
    decreases records.len(),
{
    if records.len() == 0 {
        Seq::empty()
    } else {
        (match record_texts(records[0]) {
            Some(t) => t,
            None => Seq::empty(),
        }) + records_out(records.drop_first())
    }
}

/// The byte stream that carries a list of records: each record's bytes
/// followed by a line feed.
pub open spec fn stream_of(records: Seq<Seq<u8>>) -> Seq<u8> {
    records.map_values(|r: Seq<u8>| r.push(10u8)).flatten()
}

/// A stream of well-formed records, each free of line feeds, decodes to
/// exactly the concatenation of their contributions: each delta text
/// followed by one line feed, terminator records contributing nothing.
pub proof fn lemma_record_stream(m: DecoderModel, records: Seq<Seq<u8>>)
    requires
        !m.failed,
        m.buf.len() == 0,
        forall|i: int| 0 <= i < records.len() ==> #[trigger] records[i].len() > 0,
        forall|i: int, k: int|
            0 <= i < records.len() && 0 <= k < records[i].len() ==> #[trigger] records[i][k] != 10,
        forall|i: int| 0 <= i < records.len() ==> (#[trigger] record_texts(records[i]) is Some),
    ensures
        run(m, stream_of(records)) == (DecoderModel {
            buf: Seq::empty(),
            out: m.out + records_out(records),
            failed: false,
        }),
    decreases records.len(),
{
    let mapped = records.map_values(|r: Seq<u8>| r.push(10u8));
    if records.len() == 0 {
        assert(mapped.flatten() =~= Seq::<u8>::empty());
        assert(m.out + records_out(records) =~= m.out);
        assert(run(m, stream_of(records)) =~= DecoderModel {
            buf: Seq::empty(),
            out: m.out + records_out(records),
            failed: false,
        });
    } else {
        let rec = records[0];
        let t = match record_texts(rec) {
            Some(t) => t,
            None => Seq::empty(),
        };
        assert(record_texts(rec) == Some(t));
        assert(mapped.flatten() == mapped.first() + mapped.drop_first().flatten());
        assert(mapped.first() == rec.push(10u8));
        lemma_run_append(m, rec.push(10u8), mapped.drop_first().flatten());
        lemma_run_record(m, rec, t);
        let m1 = DecoderModel { buf: Seq::empty(), out: m.out + t, failed: false };
        assert(mapped.drop_first() =~= records.drop_first().map_values(|r: Seq<u8>| r.push(10u8)));
        lemma_record_stream(m1, records.drop_first());
        assert((m.out + t) + records_out(records.drop_first()) =~= m.out + (t + records_out(
            records.drop_first(),
        )));
    }
}

/// A data record whose payload decodes to one delta carrying the non-empty
/// text `t` contributes exactly `t` followed by one line feed.
pub proof fn lemma_single_delta_record(rec: Seq<u8>, ix: Option<u32>, t: Seq<char>)
    requires
        is_data_record(rec),
        rec != done_record(),
        t.len() > 0,
        chunk_of(rec.skip(6)) == Some(
            ChunkView {
                choices: Some(
                    seq![
                        ChoiceView { index: ix, delta: Some(DeltaView { content: Some(t) }) },
                    ],
                ),
            },
        ),
    ensures
        record_texts(rec) == Some(t.push('\n')),
{
    let c = ChoiceView { index: ix, delta: Some(DeltaView { content: Some(t) }) };
    assert(seq![c].drop_first() =~= Seq::<ChoiceView>::empty());
    assert(choices_text(Seq::<ChoiceView>::empty()) == Seq::<char>::empty());
    assert(seq![c][0] == c);
    assert(delta_text(c) == t.push('\n'));
    assert(t.push('\n') + Seq::<char>::empty() =~= t.push('\n'));
}

/// The texts joined as the decoder reports them: each followed by one line
/// feed, mirroring the record boundaries.
pub open spec fn joined_texts(texts: Seq<Seq<char>>) -> Seq<char>
    decreases texts.len(),
{
    if texts.len() == 0 {
        Seq::empty()
    } else {
        texts[0].push('\n') + joined_texts(texts.drop_first())
    }
}

proof fn lemma_records_out_texts(records: Seq<Seq<u8>>, texts: Seq<Seq<char>>)
    requires
        records.len() == texts.len(),
        forall|i: int|
            0 <= i < records.len() ==> #[trigger] record_texts(records[i]) == Some(
                texts[i].push('\n'),
            ),
    ensures
        records_out(records) == joined_texts(texts),
    decreases records.len(),
{
    if records.len() == 0 {
    } else {
        assert(records.drop_first().len() == texts.drop_first().len());
        assert forall|i: int| 0 <= i < records.drop_first().len() implies #[trigger] record_texts(
            records.drop_first()[i],
        ) == Some(texts.drop_first()[i].push('\n')) by {
            assert(records.drop_first()[i] == records[i + 1]);
            assert(texts.drop_first()[i] == texts[i + 1]);
        }
        lemma_records_out_texts(records.drop_first(), texts.drop_first());
        assert(record_texts(records[0]) == Some(texts[0].push('\n')));
    }
}

/// The decoder's contract for a well-formed stream: given records each
/// carrying one text, followed by the terminator record, the reassembled
/// answer is exactly the texts in order, one line feed after each — and the
/// operation did not fail.
pub proof fn lemma_delta_stream(records: Seq<Seq<u8>>, texts: Seq<Seq<char>>)
    requires
        records.len() == texts.len(),
        forall|i: int| 0 <= i < records.len() ==> (#[trigger] records[i]).len() > 0,
        forall|i: int, k: int|
            0 <= i < records.len() && 0 <= k < records[i].len() ==> #[trigger] records[i][k] != 10,
        forall|i: int|
            0 <= i < records.len() ==> #[trigger] record_texts(records[i]) == Some(
                texts[i].push('\n'),
            ),
    ensures
        run(init_model(), stream_of(records.push(done_record()))) == (DecoderModel {
            buf: Seq::empty(),
            out: joined_texts(texts),
            failed: false,
        }),
{
    let all = records.push(done_record());
    assert forall|k: int| 0 <= k < done_record().len() implies #[trigger] done_record()[k]
        != 10 by {
        if k == 0 {
            assert(done_record()[0] == 100);
        } else if k == 1 {
            assert(done_record()[1] == 97);
        } else if k == 2 {
            assert(done_record()[2] == 116);
        } else if k == 3 {
            assert(done_record()[3] == 97);
        } else if k == 4 {
            assert(done_record()[4] == 58);
        } else if k == 5 {
            assert(done_record()[5] == 32);
        } else if k == 6 {
            assert(done_record()[6] == 91);
        } else if k == 7 {
            assert(done_record()[7] == 68);
        } else if k == 8 {
            assert(done_record()[8] == 79);
        } else if k == 9 {
            assert(done_record()[9] == 78);
        } else if k == 10 {
            assert(done_record()[10] == 69);
        } else {
            assert(done_record()[11] == 93);
        }
    }
    assert forall|i: int| 0 <= i < all.len() implies (#[trigger] all[i]).len() > 0 by {
        if i < records.len() {
            assert(all[i] == records[i]);
        } else {
            assert(all[i] == done_record());
        }
    }
    assert forall|i: int, k: int| 0 <= i < all.len() && 0 <= k < all[i].len() implies #[trigger] all[i][k]
        != 10 by {
        if i < records.len() {
            assert(all[i] == records[i]);
            assert(records[i][k] != 10);
        } else {
            assert(all[i] == done_record());
        }
    }
    assert forall|i: int| 0 <= i < all.len() implies (#[trigger] record_texts(all[i])
        is Some) by {
        if i < records.len() {
            assert(all[i] == records[i]);
            assert(record_texts(records[i]) == Some(texts[i].push('\n')));
        } else {
            assert(all[i] == done_record());
            assert(record_texts(done_record()) == Some(Seq::<char>::empty()));
        }
    }
    lemma_record_stream(init_model(), all);
    lemma_records_out_texts(records, texts);
    assert(records_out(all) == records_out(records) + Seq::<char>::empty()) by {
        lemma_records_out_push(records, done_record());
        assert(record_texts(done_record()) == Some(Seq::<char>::empty()));
    }
    assert(records_out(all) =~= records_out(records));
    assert(init_model().out + records_out(all) =~= joined_texts(texts));
}

proof fn lemma_records_out_push(records: Seq<Seq<u8>>, x: Seq<u8>)
    ensures
        records_out(records.push(x)) == records_out(records) + (match record_texts(x) {
            Some(t) => t,
            None => Seq::empty(),
        }),
    decreases records.len(),
{
    let tail = match record_texts(x) {
        Some(t) => t,
        None => Seq::<char>::empty(),
    };
    if records.len() == 0 {
        assert(records.push(x)[0] == x);
        assert(records.push(x).drop_first() =~= Seq::<Seq<u8>>::empty());
        assert(records_out(Seq::<Seq<u8>>::empty()) == Seq::<char>::empty());
        assert(tail + Seq::<char>::empty() =~= tail);
        assert(records_out(records) + tail =~= tail);
    } else {
        assert(records.push(x)[0] == records[0]);
        assert(records.push(x).drop_first() =~= records.drop_first().push(x));
        lemma_records_out_push(records.drop_first(), x);
        let head = match record_texts(records[0]) {
            Some(t) => t,
            None => Seq::<char>::empty(),
        };
        assert(head + (records_out(records.drop_first()) + tail) =~= (head + records_out(
            records.drop_first(),
        )) + tail);
    }
}

/// A malformed record fails the whole operation: whatever bytes follow it,
/// the decoder ends failed, and closing it reports the parse failure.
pub proof fn lemma_malformed_record_fails(m: DecoderModel, rec: Seq<u8>, rest: Seq<u8>)
    requires
        !m.failed,
        m.buf.len() == 0,
        rec.len() > 0,
        forall|i: int| 0 <= i < rec.len() ==> rec[i] != 10,
        (record_texts(rec) is None),
    ensures
        run(m, rec.push(10) + rest) == (DecoderModel {
            buf: Seq::empty(),
            out: m.out,
            failed: true,
        }),
{
    lemma_run_fill(m, rec);
    assert(m.buf + rec =~= rec);
    lemma_run_snoc(m, rec, 10);
    let m1 = DecoderModel { buf: Seq::empty(), out: m.out, failed: true };
    assert(run(m, rec.push(10)) == m1);
    lemma_run_append(m, rec.push(10), rest);
    lemma_failed_sticky(m1, rest);
}

} // verus!
