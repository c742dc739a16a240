//! An address that Thrift requests are sent to, with a record of what was sent.
use vstd::prelude::*;

use crate::evernote_client::transport::ThriftHttpClient;

verus! {

/// A request and what it was answered.
pub struct Exchange {
    pub body: Seq<u8>,
    pub reply: Result<Vec<u8>, String>,
}

/// `reply` is an answer that the client can give to a request with this body.
pub open spec fn answers<C: ThriftHttpClient>(
    http: &C,
    url: Seq<char>,
    body: Seq<u8>,
    reply: Result<Vec<u8>, String>,
) -> bool {
    exists|address: &str, bytes: Vec<u8>|
        address@ == url && bytes@ == body && #[trigger] call_ensures(
            C::post_thrift,
            (http, address, bytes),
            reply,
        )
}

/// An address and the client that sends requests to it. Nothing but [`post`]
/// can reach the client, and each post is put on record.
///
/// [`post`]: Endpoint::post
pub struct Endpoint<C: ThriftHttpClient> {
    url: String,
    http: C,
    exchanges: Ghost<Seq<Exchange>>,
}

impl<C: ThriftHttpClient> Endpoint<C> {
    /// The address.
    pub closed spec fn url(&self) -> Seq<char> {
        self.url@
    }

    /// The client.
    pub closed spec fn http(&self) -> C {
        self.http
    }

    /// What was posted, and what it was answered, in order.
    pub closed spec fn exchanges(&self) -> Seq<Exchange> {
        self.exchanges@
    }

    /// An address to which nothing has been posted.
    pub fn new(url: String, http: C) -> (res: Self)
        ensures
            res.url() == url@,
            res.http() == http,
            res.exchanges() == Seq::<Exchange>::empty(),
    {
        Endpoint { url, http, exchanges: Ghost(Seq::empty()) }
    }

    /// Posts the body to the address, and returns the answer. That the body below
    /// calls the client once for the one exchange that it puts on record is plain
    /// to see; a contract has no words for it.
    pub fn post(&mut self, body: Vec<u8>) -> (res: Result<Vec<u8>, String>)
        ensures
            final(self).url() == old(self).url(),
            final(self).http() == old(self).http(),
            answers(&old(self).http(), old(self).url(), body@, res),
            final(self).exchanges() == old(self).exchanges().push(
                Exchange { body: body@, reply: res },
            ),
    {
        let ghost sent = body@;
        let reply = self.http.post_thrift(self.url.as_str(), body);
        proof {
            assert(answers(&self.http, self.url@, sent, reply));
            self.exchanges@ = self.exchanges@.push(Exchange { body: sent, reply });
        }
        reply
    }
}

} // verus!
