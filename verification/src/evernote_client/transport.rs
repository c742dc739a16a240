//! The transport under the Thrift protocol: what is written is collected until
//! a flush sends it in one HTTP request, and the answer is then read.
use vstd::prelude::*;

use crate::evernote_client::endpoint::{answers, Endpoint, Exchange};

verus! {

/// Sends the body of a Thrift request and returns the body of the answer.
pub trait ThriftHttpClient: Clone + Send + Sync + 'static {
    fn post_thrift(&self, url: &str, body: Vec<u8>) -> (res: Result<Vec<u8>, String>);
}

/// What waits to be sent, and what waits to be read.
pub struct Buffers {
    pub unsent: Seq<u8>,
    pub unread: Seq<u8>,
}

/// A number of bytes, but not more than there are.
pub open spec fn at_most(wanted: nat, there: nat) -> nat {
    if there <= wanted {
        there
    } else {
        wanted
    }
}

impl Buffers {
    /// Buffers with nothing in them.
    pub open spec fn empty() -> Buffers {
        Buffers { unsent: Seq::empty(), unread: Seq::empty() }
    }

    /// The buffers after these bytes were written.
    pub open spec fn after_write(self, bytes: Seq<u8>) -> Buffers {
        Buffers { unsent: self.unsent + bytes, ..self }
    }

    /// What a read of at most so many bytes yields.
    pub open spec fn yields(self, wanted: nat) -> Seq<u8> {
        self.unread.take(at_most(wanted, self.unread.len()) as int)
    }

    /// The buffers after a read of at most so many bytes.
    pub open spec fn after_read(self, wanted: nat) -> Buffers {
        Buffers { unread: self.unread.skip(at_most(wanted, self.unread.len()) as int), ..self }
    }

    /// The buffers after what waits to be sent was taken.
    pub open spec fn after_take(self) -> Buffers {
        Buffers { unsent: Seq::empty(), ..self }
    }

    /// The buffers after an answer, which takes the place of what waits to be read,
    /// or after none.
    pub open spec fn after_answer(self, answer: Option<Seq<u8>>) -> Buffers {
        match answer {
            Some(body) => Buffers { unread: body, ..self },
            None => self,
        }
    }

    /// The buffers after a flush that was answered with this, or not at all.
    pub open spec fn after_flush(self, answer: Option<Seq<u8>>) -> Buffers {
        self.after_take().after_answer(answer)
    }
}

/// The body of an answer, if there was one.
pub open spec fn body_of(reply: Result<Vec<u8>, String>) -> Option<Seq<u8>> {
    match reply {
        Ok(body) => Some(body@),
        Err(_) => None,
    }
}

/// An answer without its body.
pub open spec fn acknowledged(reply: Result<Vec<u8>, String>) -> Result<(), String> {
    match reply {
        Ok(_) => Ok(()),
        Err(error) => Err(error),
    }
}

/// The two buffers of the transport.
#[derive(Debug)]
pub struct ThriftHttpState {
    read_bytes: Vec<u8>,
    read_pos: usize,
    write_bytes: Vec<u8>,
}

impl View for ThriftHttpState {
    type V = Buffers;

    closed spec fn view(&self) -> Buffers {
        Buffers {
            unsent: self.write_bytes@,
            unread: if self.read_pos <= self.read_bytes@.len() {
                self.read_bytes@.skip(self.read_pos as int)
            } else {
                Seq::empty()
            },
        }
    }
}

impl ThriftHttpState {
    /// Buffers with nothing in them.
    pub fn new() -> (res: Self)
        ensures
            res@ == Buffers::empty(),
    {
        let res = ThriftHttpState {
            read_bytes: Vec::new(),
            read_pos: 0,
            write_bytes: Vec::new(),
        };
        assert(res@.unread =~= Seq::<u8>::empty());
        res
    }

    /// Reads into `buf` as much as it can hold of what waits to be read.
    pub fn read(&mut self, buf: &mut [u8]) -> (res: usize)
        ensures
            res == old(self)@.yields(old(buf)@.len()).len(),
            final(buf)@ == old(self)@.yields(old(buf)@.len()) + old(buf)@.skip(res as int),
            final(self)@ == old(self)@.after_read(old(buf)@.len()),
    {
        let remaining: usize = self.read_bytes.len().saturating_sub(self.read_pos);
        let read_len: usize = if remaining <= buf.len() {
            remaining
        } else {
            buf.len()
        };
        if read_len == 0 {
            assert(self@.unread.skip(0) =~= self@.unread);
            assert(self@.unread.take(0) + buf@.skip(0) =~= buf@);
            return 0;
        }
        let start: usize = self.read_pos;
        let ghost unread = self@.unread;
        let ghost before = buf@;
        assert(unread.take(0) + before.skip(0) =~= before);
        for i in 0..read_len
            invariant
                start + read_len <= self.read_bytes@.len() <= usize::MAX,
                read_len <= buf@.len(),
                buf@.len() == before.len(),
                unread == self.read_bytes@.skip(start as int),
                self.read_pos == start,
                self.write_bytes@ == old(self).write_bytes@,
                buf@ == unread.take(i as int) + before.skip(i as int),
        {
            buf[i] = self.read_bytes[start + i];
            assert(buf@ =~= unread.take(i + 1) + before.skip(i + 1));
        }
        self.read_pos = start + read_len;
        assert(self@.unread =~= unread.skip(read_len as int));
        read_len
    }

    /// Adds `buf` to what waits to be sent.
    pub fn write(&mut self, buf: &[u8]) -> (res: usize)
        ensures
            res == buf@.len(),
            final(self)@ == old(self)@.after_write(buf@),
    {
        self.write_bytes.extend_from_slice(buf);
        assert(self.write_bytes@ =~= old(self).write_bytes@ + buf@);
        buf.len()
    }

    /// Takes what waits to be sent.
    pub fn take_request(&mut self) -> (res: Vec<u8>)
        ensures
            res@ == old(self)@.unsent,
            final(self)@ == old(self)@.after_take(),
    {
        let mut request: Vec<u8> = Vec::new();
        std::mem::swap(&mut request, &mut self.write_bytes);
        request
    }

    /// Puts an answer in place of what waits to be read; without one, everything
    /// stays and the error is passed on.
    pub fn accept_response(&mut self, response: Result<Vec<u8>, String>) -> (res: Result<
        (),
        String,
    >)
        ensures
            res == acknowledged(response),
            final(self)@ == old(self)@.after_answer(body_of(response)),
    {
        match response {
            Ok(body) => {
                self.read_pos = 0;
                self.read_bytes = body;
                assert(self.read_bytes@.skip(0) =~= self.read_bytes@);
                Ok(())
            },
            Err(error) => Err(error),
        }
    }
}

/// A connection to one endpoint.
pub struct ThriftHttpChannel<C: ThriftHttpClient> {
    pub endpoint: Endpoint<C>,
    pub state: ThriftHttpState,
}

impl<C: ThriftHttpClient> ThriftHttpChannel<C> {
    /// A connection over which nothing has been sent.
    pub fn new(endpoint: String, http: C) -> (res: Self)
        ensures
            res.endpoint.url() == endpoint@,
            res.endpoint.http() == http,
            res.endpoint.exchanges() == Seq::<Exchange>::empty(),
            res.state@ == Buffers::empty(),
    {
        ThriftHttpChannel { endpoint: Endpoint::new(endpoint, http), state: ThriftHttpState::new() }
    }

    /// Reads into `buf` as much as it can hold of what waits to be read. Nothing is
    /// sent.
    pub fn read(&mut self, buf: &mut [u8]) -> (res: usize)
        ensures
            final(self).endpoint == old(self).endpoint,
            res == old(self).state@.yields(old(buf)@.len()).len(),
            final(buf)@ == old(self).state@.yields(old(buf)@.len()) + old(buf)@.skip(res as int),
            final(self).state@ == old(self).state@.after_read(old(buf)@.len()),
    {
        self.state.read(buf)
    }

    /// Adds `buf` to what waits to be sent. Nothing is sent.
    pub fn write(&mut self, buf: &[u8]) -> (res: usize)
        ensures
            final(self).endpoint == old(self).endpoint,
            res == buf@.len(),
            final(self).state@ == old(self).state@.after_write(buf@),
    {
        self.state.write(buf)
    }

    /// Sends everything that was written since the last flush, in exactly one
    /// request to the endpoint. Its answer takes the place of what was left to read;
    /// if there is none, what was left to read stays.
    pub fn flush(&mut self) -> (res: Result<(), String>)
        ensures
            final(self).endpoint.url() == old(self).endpoint.url(),
            final(self).endpoint.http() == old(self).endpoint.http(),
            final(self).endpoint.exchanges().len() == old(self).endpoint.exchanges().len() + 1,
            ({
                let reply = final(self).endpoint.exchanges().last().reply;
                &&& final(self).endpoint.exchanges() == old(self).endpoint.exchanges().push(
                    Exchange { body: old(self).state@.unsent, reply },
                )
                &&& answers(
                    &old(self).endpoint.http(),
                    old(self).endpoint.url(),
                    old(self).state@.unsent,
                    reply,
                )
                &&& res == acknowledged(reply)
                &&& final(self).state@ == old(self).state@.after_flush(body_of(reply))
            }),
    {
        let request = self.state.take_request();
        let reply = self.endpoint.post(request);
        self.state.accept_response(reply)
    }
}

// ---------------------------------------------------------------------------
// Laws
// ---------------------------------------------------------------------------
/// A call on a channel.
pub enum Call {
    /// These bytes are written.
    Write(Seq<u8>),
    /// At most so many bytes are read.
    Read(nat),
    /// What was written is sent, and answered with this or not at all.
    Flush(Option<Seq<u8>>),
}

impl Buffers {
    /// The buffers after a call.
    pub open spec fn after_call(self, call: Call) -> Buffers {
        match call {
            Call::Write(bytes) => self.after_write(bytes),
            Call::Read(wanted) => self.after_read(wanted),
            Call::Flush(answer) => self.after_flush(answer),
        }
    }

    /// The buffers after any number of calls.
    pub open spec fn after(self, calls: Seq<Call>) -> Buffers
        decreases calls.len(),
    {
        if calls.len() == 0 {
            self
        } else {
            self.after(calls.drop_last()).after_call(calls.last())
        }
    }

    /// The bodies of the requests that the calls send, one for each flush.
    pub open spec fn requests(self, calls: Seq<Call>) -> Seq<Seq<u8>>
        decreases calls.len(),
    {
        if calls.len() == 0 {
            Seq::empty()
        } else {
            let before = self.requests(calls.drop_last());
            match calls.last() {
                Call::Flush(_) => before.push(self.after(calls.drop_last()).unsent),
                _ => before,
            }
        }
    }

    /// What the reads among the calls yield, one after the other.
    pub open spec fn read_by(self, calls: Seq<Call>) -> Seq<u8>
        decreases calls.len(),
    {
        if calls.len() == 0 {
            Seq::empty()
        } else {
            let before = self.read_by(calls.drop_last());
            match calls.last() {
                Call::Read(wanted) => before + self.after(calls.drop_last()).yields(wanted),
                _ => before,
            }
        }
    }
}

/// The bytes that the calls write, one after the other.
pub open spec fn written_by(calls: Seq<Call>) -> Seq<u8>
    decreases calls.len(),
{
    if calls.len() == 0 {
        Seq::empty()
    } else {
        let before = written_by(calls.drop_last());
        match calls.last() {
            Call::Write(bytes) => before + bytes,
            _ => before,
        }
    }
}

/// None of the calls is a flush.
pub open spec fn no_flush(calls: Seq<Call>) -> bool {
    forall|i: int| 0 <= i < calls.len() ==> !(#[trigger] calls[i] is Flush)
}

/// As long as nothing is flushed, what is written waits to be sent, joined in
/// order, and what is read is what waited to be read, in order: what was read and
/// what is left of it always make up the whole.
pub proof fn lemma_between_flushes(start: Buffers, calls: Seq<Call>)
    requires
        no_flush(calls),
    ensures
        start.after(calls).unsent == start.unsent + written_by(calls),
        start.read_by(calls) + start.after(calls).unread == start.unread,
        start.requests(calls) == Seq::<Seq<u8>>::empty(),
    decreases calls.len(),
{
    if calls.len() == 0 {
        assert(start.unsent + written_by(calls) =~= start.unsent);
        assert(start.read_by(calls) + start.unread =~= start.unread);
    } else {
        let front = calls.drop_last();
        assert forall|i: int| 0 <= i < front.len() implies !(#[trigger] front[i] is Flush) by {
            assert(front[i] == calls[i]);
        }
        lemma_between_flushes(start, front);
        assert(calls[calls.len() - 1] == calls.last());
        let before = start.after(front);
        match calls.last() {
            Call::Write(bytes) => {
                assert(before.unsent + bytes =~= start.unsent + written_by(calls));
            },
            Call::Read(wanted) => {
                assert(before.unread =~= before.yields(wanted) + before.after_read(wanted).unread);
                assert(start.read_by(calls) + start.after(calls).unread =~= start.read_by(front)
                    + before.unread);
            },
            Call::Flush(_) => {},
        }
    }
}

/// Calls after other calls.
proof fn lemma_after_append(start: Buffers, first: Seq<Call>, then: Seq<Call>)
    ensures
        start.after(first + then) == start.after(first).after(then),
        start.requests(first + then) == start.requests(first) + start.after(first).requests(then),
    decreases then.len(),
{
    let all = first + then;
    if then.len() == 0 {
        assert(all =~= first);
        assert(start.requests(first) + Seq::<Seq<u8>>::empty() =~= start.requests(first));
    } else {
        assert(all.drop_last() =~= first + then.drop_last());
        lemma_after_append(start, first, then.drop_last());
        assert(start.requests(all) =~= start.requests(first) + start.after(first).requests(then));
    }
}

/// On a channel on which everything that was written has been sent, calls up to
/// a flush, the flush, and calls up to another flush come to this:
/// - each flush sends one request;
/// - the first sends the bytes of all writes before it, joined in order;
/// - if it is answered, what is then read is the answer, in order, as far as it
///   is read, and a read yields nothing exactly if it asks for nothing or the
///   answer has been read to its end;
/// - if it is not answered, the same holds of what was left to read before;
/// - the second sends the bytes of the writes since the first, and none that the
///   first has sent, whether that was answered or not.
pub proof fn lemma_flush(
    start: Buffers,
    before: Seq<Call>,
    answer: Option<Seq<u8>>,
    later: Seq<Call>,
    last: Option<Seq<u8>>,
)
    requires
        start.unsent.len() == 0,
        no_flush(before),
        no_flush(later),
    ensures
        ({
            let flushed = before.push(Call::Flush(answer));
            let all = (flushed + later).push(Call::Flush(last));
            let sent = start.after(flushed);
            let left = sent.after(later);
            let whole = match answer {
                Some(body) => body,
                None => start.after(before).unread,
            };
            &&& start.requests(all) == seq![written_by(before), written_by(later)]
            &&& start.after(flushed + later) == left
            &&& sent.read_by(later) + left.unread == whole
            &&& forall|wanted: nat|
                (#[trigger] left.yields(wanted)).len() == 0 <==> wanted == 0 || sent.read_by(later)
                    == whole
        }),
{
    let flushed = before.push(Call::Flush(answer));
    let all = (flushed + later).push(Call::Flush(last));
    let sent = start.after(flushed);
    let left = sent.after(later);
    lemma_between_flushes(start, before);
    assert(flushed.drop_last() =~= before);
    assert(start.unsent + written_by(before) =~= written_by(before));
    assert(start.requests(flushed) =~= seq![written_by(before)]);
    lemma_between_flushes(sent, later);
    assert(sent.unsent + written_by(later) =~= written_by(later));
    lemma_after_append(start, flushed, later);
    assert(all.drop_last() =~= flushed + later);
    assert(start.requests(flushed + later) =~= seq![written_by(before)]);
    assert(start.requests(all) =~= seq![written_by(before), written_by(later)]);
    let whole = sent.unread;
    let read = sent.read_by(later);
    assert(read + left.unread == whole);
    assert(left.unread.len() == 0 ==> read =~= whole);
    assert(read == whole ==> left.unread.len() == 0);
}

} // verus!
