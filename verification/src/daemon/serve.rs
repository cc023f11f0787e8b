//! What the connections of clients are answered.

use vstd::prelude::*;

use crate::daemon::{Event, Notice};
use crate::error::Error;
use crate::lists;
use crate::proto;
use crate::proto::{envelope, AcquireRequest, Body, Envelope, Hello, Role, StreamEnd};
use crate::text;
use crate::text::push_decimal;

verus! {

/// Why a connection is refused.
pub open spec fn hello_words() -> Seq<char> {
    "expected a hello of version "@ + text::decimal(proto::VERSION as nat)
}

/// What the first message of a connection is for, if it is a hello of the version
/// spoken here.
pub open spec fn greeted(first: Option<Envelope>) -> Option<Option<Role>> {
    match first {
        Some(Envelope { body: Some(Body::Hello(hello)), .. }) => if hello.version
            == proto::VERSION {
            Some(hello.role)
        } else {
            None
        },
        _ => None,
    }
}

/// Takes the first message of a connection: what the connection is for, or the
/// answer that refuses it.
pub fn greet(first: Option<Envelope>) -> (r: Result<Option<Role>, Envelope>)
    ensures
        match greeted(first) {
            Some(role) => r matches Ok(told) && told == role,
            None => {
                &&& r matches Err(answer)
                &&& answer.id == 0
                &&& answer.body matches Some(Body::Error(words))
                &&& words@ == hello_words()
            },
        },
{
    match first {
        Some(Envelope { body: Some(Body::Hello(hello)), .. }) => {
            if hello.version == proto::VERSION {
                return Ok(hello.role);
            }
        },
        _ => {},
    }
    let mut words: String = "expected a hello of version ".to_owned();
    push_decimal(&mut words, proto::VERSION as u64);
    Err(envelope(0, Body::Error(words)))
}

/// The hello that answers one.
pub fn hello() -> (r: Envelope)
    ensures
        r == (Envelope {
            id: 0,
            body: Some(Body::Hello(Hello { version: proto::VERSION, role: None })),
        }),
{
    envelope(0, Body::Hello(Hello { version: proto::VERSION, role: None }))
}

/// The answer to a data connection that shows a token no stream waits for.
pub fn unknown_stream() -> (r: Envelope)
    ensures
        r.id == 0,
        r.body matches Some(Body::Error(words)) && words@ == "unknown stream"@,
{
    envelope(0, Body::Error("unknown stream".to_owned()))
}

/// What a request asks for.
pub enum Request {
    List,
    Acquire(AcquireRequest),
    Release(u64),
    Signal(u64),
    /// Nothing that can be asked for.
    Unexpected,
}

/// What the body of a message asks for.
pub open spec fn asked(body: Option<Body>) -> Request {
    match body {
        Some(Body::ListRequest) => Request::List,
        Some(Body::AcquireRequest(request)) => Request::Acquire(request),
        Some(Body::ReleaseRequest(token)) => Request::Release(token),
        Some(Body::SignalRequest(token)) => Request::Signal(token),
        _ => Request::Unexpected,
    }
}

/// What the body of a message asks for.
pub fn request(body: Option<Body>) -> (r: Request)
    ensures
        r == asked(body),
{
    match body {
        Some(Body::ListRequest) => Request::List,
        Some(Body::AcquireRequest(request)) => Request::Acquire(request),
        Some(Body::ReleaseRequest(token)) => Request::Release(token),
        Some(Body::SignalRequest(token)) => Request::Signal(token),
        _ => Request::Unexpected,
    }
}

/// The answer to what cannot be asked for.
pub fn unexpected() -> (r: Body)
    ensures
        r matches Body::Error(words) && words@ == "unexpected request"@,
{
    Body::Error("unexpected request".to_owned())
}

/// The answer to a request that failed.
pub fn failed(e: &Error) -> (r: Body)
    ensures
        r matches Body::Error(words) && words@ == e.text(),
{
    Body::Error(e.message())
}

/// The error for a token that stands for no stream.
pub fn no_stream(token: u64) -> (r: Error)
    ensures
        r matches Error::NotFound(what) && what@ == "stream "@ + text::decimal(token as nat),
{
    let mut what: String = "stream ".to_owned();
    push_decimal(&mut what, token as u64);
    Error::NotFound(what)
}

impl Notice {
    /// The message a client is sent, `error` being what its stream ended for, if
    /// it ended for any.
    pub fn message(&self, error: Option<&String>) -> (r: Envelope)
        ensures
            r.id == 0,
            match self.event {
                Event::Dropped(drops) => r.body == Some(Body::DropEvent(drops)),
                Event::Ended(token) => {
                    &&& r.body matches Some(Body::StreamEndEvent(end))
                    &&& end.stream_token == token
                    &&& match error {
                        Some(words) => end.error@ == words@,
                        None => end.error@.len() == 0,
                    }
                },
            },
    {
        match self.event {
            Event::Dropped(drops) => envelope(0, Body::DropEvent(drops)),
            Event::Ended(stream_token) => {
                let error: String = match error {
                    Some(words) => words.clone(),
                    None => String::new(),
                };
                envelope(0, Body::StreamEndEvent(StreamEnd { stream_token, error }))
            },
        }
    }
}

/// The streams of a control connection, which go with it.
pub struct Owned {
    /// `None` once the client has gone.
    pub tokens: Option<Vec<u64>>,
}

impl View for Owned {
    type V = Option<Seq<u64>>;

    open spec fn view(&self) -> Option<Seq<u64>> {
        match self.tokens {
            Some(tokens) => Some(tokens@),
            None => None,
        }
    }
}

pub open spec fn not_token(token: u64) -> spec_fn(u64) -> bool {
    |t: u64| t != token
}

fn holds(tokens: &Vec<u64>, token: u64) -> (r: bool)
    ensures
        r == tokens@.contains(token),
{
    let mut i: usize = 0;
    while i < tokens.len()
        invariant
            i <= tokens@.len(),
            forall|k: int| 0 <= k < i ==> tokens@[k] != token,
        decreases tokens@.len() - i,
    {
        if tokens[i] == token {
            assert(tokens@[i as int] == token);
            return true;
        }
        i = i + 1;
    }
    false
}

impl Owned {
    pub fn new() -> (r: Self)
        ensures
            r@ == Some(Seq::<u64>::empty()),
    {
        Owned { tokens: Some(Vec::new()) }
    }

    /// Takes note of a stream given to the client; whether it was. If not, the
    /// client went while the tuner was tuning, or has the stream already, and the
    /// stream is to be released.
    pub fn keep(&mut self, token: u64) -> (r: bool)
        ensures
            match old(self)@ {
                None => !r && final(self)@ is None,
                Some(tokens) => if tokens.contains(token) {
                    !r && final(self)@ == Some(tokens)
                } else {
                    r && final(self)@ == Some(tokens.push(token))
                },
            },
    {
        match self.tokens.take() {
            None => false,
            Some(tokens) => {
                let there: bool = holds(&tokens, token);
                let mut tokens: Vec<u64> = tokens;
                if !there {
                    tokens.push(token);
                }
                self.tokens = Some(tokens);
                !there
            },
        }
    }

    /// Takes note that the client released a stream.
    pub fn drop_one(&mut self, token: u64)
        ensures
            match old(self)@ {
                None => final(self)@ is None,
                Some(tokens) => final(self)@ == Some(tokens.filter(not_token(token))),
            },
    {
        match self.tokens.take() {
            None => {},
            Some(tokens) => {
                let mut kept: Vec<u64> = Vec::new();
                let mut i: usize = 0;
                proof {
                    reveal(Seq::filter);
                    assert(tokens@.take(0).filter(not_token(token)) =~= Seq::empty());
                }
                while i < tokens.len()
                    invariant
                        i <= tokens@.len(),
                        kept@ == tokens@.take(i as int).filter(not_token(token)),
                    decreases tokens@.len() - i,
                {
                    proof {
                        lists::filter_one_more(tokens@, not_token(token), i as int);
                    }
                    if tokens[i] != token {
                        kept.push(tokens[i]);
                    }
                    i = i + 1;
                }
                assert(tokens@.take(i as int) =~= tokens@);
                self.tokens = Some(kept);
            },
        }
    }

    /// Takes note that the client has gone; the streams to release with it.
    pub fn leave(&mut self) -> (r: Vec<u64>)
        ensures
            final(self)@ is None,
            r@ == match old(self)@ {
                Some(tokens) => tokens,
                None => Seq::empty(),
            },
    {
        match self.tokens.take() {
            Some(tokens) => tokens,
            None => Vec::new(),
        }
    }
}

} // verus!
