//! The line to the relay, and the record of what went over it.
use crate::error::Error;
use vstd::prelude::*;

verus! {

/// A line to the relay.
///
/// The specification function is the line's own account of an exchange; one
/// that gives no account promises nothing. It exists only in proofs.
pub trait RelayTransport: Send + Sized {
    /// Exchanging `request` for `response_len` bytes may take the line to
    /// `post` and return `r`.
    open spec fn exchanged(
        &self,
        post: &Self,
        request: Seq<u8>,
        response_len: usize,
        r: Result<Vec<u8>, Error>,
    ) -> bool {
        true
    }

    /// Send `request` and read `response_len` bytes back.
    fn exchange(&mut self, request: &[u8], response_len: usize) -> (r: Result<Vec<u8>, Error>)
        ensures
            old(self).exchanged(final(self), request@, response_len, r),
    ;
}

/// One exchange on a line, and what came of it.
pub struct Exchange {
    /// The bytes sent.
    pub request: Seq<u8>,
    /// How many bytes were asked for.
    pub response_len: usize,
    /// What the line returned.
    pub reply: Result<Vec<u8>, Error>,
}

/// `exchange` takes a line from `pre` to `post`.
pub open spec fn exchange_made<T: RelayTransport>(pre: T, exchange: Exchange, post: T) -> bool {
    pre.exchanged(&post, exchange.request, exchange.response_len, exchange.reply)
}

/// `exchanges`, made one after the other, take a line from `pre` to `post`.
pub open spec fn exchanges_made<T: RelayTransport>(
    pre: T,
    exchanges: Seq<Exchange>,
    post: T,
) -> bool
    decreases exchanges.len(),
{
    if exchanges.len() == 0 {
        pre == post
    } else {
        exists|before: T|
            exchanges_made(pre, exchanges.drop_last(), before) && #[trigger] exchange_made(
                before,
                exchanges.last(),
                post,
            )
    }
}

/// A line together with the record of every exchange on it since it was
/// wrapped. The record exists only in proofs.
pub struct RecordedLine<T: RelayTransport> {
    line: T,
    origin: Ghost<T>,
    log: Ghost<Seq<Exchange>>,
}

impl<T: RelayTransport> RecordedLine<T> {
    /// The line as it is now.
    pub closed spec fn line(self) -> T {
        self.line
    }

    /// The line as it was when it was wrapped.
    pub closed spec fn origin(self) -> T {
        self.origin@
    }

    /// The record.
    pub closed spec fn log(self) -> Seq<Exchange> {
        self.log@
    }

    /// The record is true: the exchanges in it are what took the line from
    /// what it was to what it is.
    pub open spec fn faithful(self) -> bool {
        exchanges_made(self.origin(), self.log(), self.line())
    }

    /// `exchange` was made and recorded.
    pub open spec fn recorded(self, post: Self, exchange: Exchange) -> bool {
        &&& exchange_made(self.line(), exchange, post.line())
        &&& post.origin() == self.origin()
        &&& post.log() == self.log().push(exchange)
        &&& self.faithful() ==> post.faithful()
    }

    /// `exchanges` were made and recorded.
    pub open spec fn carried(self, exchanges: Seq<Exchange>, post: Self) -> bool {
        &&& post.log() == self.log() + exchanges
        &&& post.origin() == self.origin()
        &&& self.faithful() ==> post.faithful()
    }

    /// The exchanges recorded between `self` and `post`.
    pub open spec fn until(self, post: Self) -> Seq<Exchange> {
        post.log().skip(self.log().len() as int)
    }

    /// Wrap a line; its record starts empty.
    pub fn new(line: T) -> (r: Self)
        ensures
            r.line() == line,
            r.origin() == line,
            r.log() == Seq::<Exchange>::empty(),
            r.faithful(),
    {
        RecordedLine { line, origin: Ghost(line), log: Ghost(Seq::empty()) }
    }
}

/// Recording an exchange that was made keeps the record true.
proof fn lemma_record_stays_true<T: RelayTransport>(
    origin: T,
    log: Seq<Exchange>,
    pre: T,
    exchange: Exchange,
    post: T,
)
    requires
        exchanges_made(origin, log, pre),
        exchange_made(pre, exchange, post),
    ensures
        exchanges_made(origin, log.push(exchange), post),
{
    assert(log.push(exchange).drop_last() =~= log);
    assert(exchange_made(pre, log.push(exchange).last(), post));
}

impl<T: RelayTransport> RelayTransport for RecordedLine<T> {
    open spec fn exchanged(
        &self,
        post: &Self,
        request: Seq<u8>,
        response_len: usize,
        r: Result<Vec<u8>, Error>,
    ) -> bool {
        self.recorded(*post, Exchange { request, response_len, reply: r })
    }

    fn exchange(&mut self, request: &[u8], response_len: usize) -> (r: Result<Vec<u8>, Error>) {
        let r: Result<Vec<u8>, Error> = self.line.exchange(request, response_len);
        let ghost made = Exchange { request: request@, response_len, reply: r };
        self.log = Ghost(self.log@.push(made));
        proof {
            let pre: RecordedLine<T> = *old(self);
            if pre.faithful() {
                lemma_record_stays_true(pre.origin@, pre.log@, pre.line, made, self.line);
            }
        }
        r
    }
}

/// A record is of what was sent: an exchange in it is that exchange on the
/// line, byte for byte, with the same outcome; and a true record leaves none
/// out.
pub proof fn law_a_recorded_exchange_was_made<T: RelayTransport>(
    pre: T,
    exchanges: Seq<Exchange>,
    post: T,
) -> (lines: Seq<T>)
    requires
        exchanges_made(pre, exchanges, post),
    ensures
        lines.len() == exchanges.len() + 1,
        lines[0] == pre,
        lines.last() == post,
        forall|i: int|
            0 <= i < exchanges.len() ==> #[trigger] lines[i].exchanged(
                &lines[i + 1],
                exchanges[i].request,
                exchanges[i].response_len,
                exchanges[i].reply,
            ),
    decreases exchanges.len(),
{
    if exchanges.len() == 0 {
        seq![pre]
    } else {
        let before = choose|before: T|
            exchanges_made(pre, exchanges.drop_last(), before) && #[trigger] exchange_made(
                before,
                exchanges.last(),
                post,
            );
        let earlier = law_a_recorded_exchange_was_made(pre, exchanges.drop_last(), before);
        let lines = earlier.push(post);
        assert forall|i: int| 0 <= i < exchanges.len() implies #[trigger] lines[i].exchanged(
            &lines[i + 1],
            exchanges[i].request,
            exchanges[i].response_len,
            exchanges[i].reply,
        ) by {
            if i < exchanges.len() - 1 {
                assert(earlier[i].exchanged(
                    &earlier[i + 1],
                    exchanges.drop_last()[i].request,
                    exchanges.drop_last()[i].response_len,
                    exchanges.drop_last()[i].reply,
                ));
            } else {
                assert(lines[i] == before);
            }
        }
        lines
    }
}

} // verus!
