//! The Android key store: the conversation with the managed runtime.
//!
//! The platform's CA store lives inside the managed runtime and is reached
//! one foreign call at a time. Which call comes next, which failure ends the
//! conversation and which is only recorded, is decided here. A [`Session`]
//! names the call it waits for as a [`Request`]; whoever holds the runtime
//! performs it and reports a [`Reply`]; the session answers with the next
//! request until it asks to [`Request::Finish`].
//!
//! A failure before the aliases are listed, or while moving through them, ends
//! the conversation. A failure while reading one alias is recorded under that
//! alias and the enumeration goes on.

use vstd::prelude::*;
use crate::certificate::Certificate;
use crate::error::{CertificateResult, ErrorKind, ErrorView, LoadError};

verus! {

/// One call into the managed runtime that a session asks for.
#[derive(Clone, Copy, Debug, PartialEq, Eq, Structural)]
pub enum Request {
    /// Find the running instance of the runtime.
    LocateRuntime,
    /// Attach the calling thread to it.
    AttachThread,
    /// Get the `AndroidCAStore` key store and load it without parameters.
    OpenKeyStore,
    /// Ask the key store for the enumeration of its aliases.
    ListAliases,
    /// Ask the enumeration whether an alias is left.
    HasMoreAliases,
    /// Take the next alias from the enumeration.
    NextAlias,
    /// Decode the alias into text.
    ResolveAlias,
    /// Get the certificate stored under the alias.
    FetchCertificate,
    /// Get the encoded form of the certificate, a byte array of the runtime.
    EncodeCertificate,
    /// Get the length of that byte array.
    MeasureEncoding,
    /// Copy `length` bytes out of that byte array.
    CopyEncoding { length: usize },
    /// Ask whether an exception is pending.
    CheckException,
    /// Clear the pending exception.
    ClearException,
    /// Nothing is left to do: detach and collect the result.
    Finish,
}

/// The part of the bridge in which a call failed.
#[derive(Clone, Copy, Debug, PartialEq, Eq, Structural)]
pub enum FailureSource {
    /// The dynamic loader.
    Library,
    /// The foreign function interface itself.
    Ffi,
    /// A call through the runtime's native interface.
    Jni,
}

/// What the runtime answered to a request.
#[derive(Clone, Debug, PartialEq, Eq)]
pub enum Reply {
    /// The call succeeded; what it returned stays with the caller.
    Done,
    /// The call succeeded and returned a boolean.
    Flag(bool),
    /// The call succeeded and returned text.
    Text(String),
    /// The call succeeded and returned a length.
    Length(usize),
    /// The call succeeded and filled a buffer of the runtime's signed bytes.
    Bytes(Vec<i8>),
    /// The call failed.
    Failed { source: FailureSource, detail: String },
}

/// The alias under which a failure is recorded when the alias cannot be decoded.
pub open spec fn unknown_alias() -> Seq<char> {
    "unknown"@
}

/// What is reported of a reply of the wrong shape.
pub open spec fn unexpected_reply() -> Seq<char> {
    "unexpected reply"@
}

/// The context of a failure while fetching the certificate of an alias.
pub open spec fn read_failure() -> Seq<char> {
    "Failed to read certificate. Alias: "@
}

/// The context of a failure while extracting the bytes of a certificate.
pub open spec fn decode_failure() -> Seq<char> {
    "Failed to decode certificate. Alias: "@
}

/// The context under which a failure of each part of the bridge is reported.
pub open spec fn source_context(source: FailureSource) -> Seq<char> {
    match source {
        FailureSource::Library => "Failed to load library"@,
        FailureSource::Ffi => "Foreign Function operation failed"@,
        FailureSource::Jni => "Jni operation failed"@,
    }
}

/// Where a reply that is not the expected one failed: a reply of the wrong
/// shape counts as a failure of the foreign function interface.
pub open spec fn failure_source(reply: Reply) -> FailureSource {
    match reply {
        Reply::Failed { source, .. } => source,
        _ => FailureSource::Ffi,
    }
}

/// What a reply that is not the expected one reports.
pub open spec fn failure_detail(reply: Reply) -> Seq<char> {
    match reply {
        Reply::Failed { detail, .. } => detail@,
        _ => unexpected_reply(),
    }
}

/// The error recorded for a failure that ends the conversation.
pub open spec fn fatal_error(reply: Reply) -> ErrorView {
    ErrorView {
        kind: ErrorKind::Os,
        context: source_context(failure_source(reply)),
        detail: failure_detail(reply),
    }
}

/// The error recorded for a failure while reading one alias: its context
/// ends with the alias.
pub open spec fn alias_error(prefix: Seq<char>, alias: Seq<char>, reply: Reply) -> ErrorView {
    ErrorView { kind: ErrorKind::Os, context: prefix + alias, detail: failure_detail(reply) }
}

/// A byte of the runtime, which is signed, read as the unsigned byte with the
/// same bits.
pub open spec fn unsigned_byte(b: i8) -> u8 {
    if b >= 0 {
        b as u8
    } else {
        (b + 256) as u8
    }
}

/// A buffer of the runtime's bytes read as unsigned bytes.
pub open spec fn unsigned_bytes(bytes: Seq<i8>) -> Seq<u8> {
    Seq::new(bytes.len(), |i: int| unsigned_byte(bytes[i]))
}

/// The state of a conversation, as contracts see it.
pub struct SessionView {
    /// The request that the session waits for a reply to.
    pub pending: Request,
    /// The alias that is being read.
    pub alias: Seq<char>,
    /// The certificates loaded so far.
    pub certs: Seq<Seq<u8>>,
    /// The failures recorded so far.
    pub errors: Seq<ErrorView>,
}

impl SessionView {
    /// The same state, waiting for another request.
    pub open spec fn waiting_for(self, pending: Request) -> SessionView {
        SessionView { pending, ..self }
    }

    /// The conversation ends on a failure, which is recorded.
    pub open spec fn aborted(self, reply: Reply) -> SessionView {
        SessionView {
            pending: Request::Finish,
            errors: self.errors.push(fatal_error(reply)),
            ..self
        }
    }

    /// The alias is given up: the failure is recorded under it, and the
    /// enumeration goes on.
    pub open spec fn skipped(self, prefix: Seq<char>, reply: Reply) -> SessionView {
        SessionView {
            pending: Request::HasMoreAliases,
            errors: self.errors.push(alias_error(prefix, self.alias, reply)),
            ..self
        }
    }

    /// A step that goes on to `next` when the call succeeded, and ends the
    /// conversation when it did not.
    pub open spec fn proceed(self, reply: Reply, next: Request) -> SessionView {
        if reply is Done {
            self.waiting_for(next)
        } else {
            self.aborted(reply)
        }
    }
}

/// Whether a request belongs to the reading of one alias.
pub open spec fn reads_alias(request: Request) -> bool {
    request is ResolveAlias || request is FetchCertificate || request is EncodeCertificate
        || request is MeasureEncoding || request is CopyEncoding
}

/// Whether a request belongs to moving through the aliases.
pub open spec fn enumerates(request: Request) -> bool {
    request is ListAliases || request is HasMoreAliases || request is NextAlias
}

/// Whether a reply is the success that the request waits for.
pub open spec fn succeeds(request: Request, reply: Reply) -> bool {
    match request {
        Request::HasMoreAliases => reply is Flag,
        Request::ResolveAlias => reply is Text,
        Request::MeasureEncoding => reply is Length,
        Request::CopyEncoding { .. } => reply is Bytes,
        Request::CheckException => reply is Done || reply is Flag,
        Request::ClearException => true,
        Request::Finish => true,
        _ => reply is Done,
    }
}

/// One step of reading an alias.
///
/// An alias that cannot be decoded is read under the name `unknown`. Every
/// other failure gives the alias up.
pub open spec fn read_step(s: SessionView, reply: Reply) -> SessionView {
    match s.pending {
        Request::ResolveAlias => SessionView {
            pending: Request::FetchCertificate,
            alias: match reply {
                Reply::Text(alias) => alias@,
                _ => unknown_alias(),
            },
            ..s
        },
        Request::FetchCertificate => if reply is Done {
            s.waiting_for(Request::EncodeCertificate)
        } else {
            s.skipped(read_failure(), reply)
        },
        Request::EncodeCertificate => if reply is Done {
            s.waiting_for(Request::MeasureEncoding)
        } else {
            s.skipped(decode_failure(), reply)
        },
        Request::MeasureEncoding => match reply {
            Reply::Length(length) => s.waiting_for(Request::CopyEncoding { length }),
            _ => s.skipped(decode_failure(), reply),
        },
        Request::CopyEncoding { .. } => match reply {
            Reply::Bytes(bytes) => SessionView {
                pending: Request::HasMoreAliases,
                certs: s.certs.push(unsigned_bytes(bytes@)),
                ..s
            },
            _ => s.skipped(decode_failure(), reply),
        },
        _ => s,
    }
}

/// One step of moving through the aliases.
pub open spec fn enumerate_step(s: SessionView, reply: Reply) -> SessionView {
    match s.pending {
        Request::ListAliases => s.proceed(reply, Request::HasMoreAliases),
        Request::HasMoreAliases => match reply {
            Reply::Flag(more) => s.waiting_for(
                if more {
                    Request::NextAlias
                } else {
                    Request::CheckException
                },
            ),
            _ => s.aborted(reply),
        },
        Request::NextAlias => s.proceed(reply, Request::ResolveAlias),
        _ => s,
    }
}

/// One step of the conversation: the state after `reply` has answered the
/// pending request.
pub open spec fn step(s: SessionView, reply: Reply) -> SessionView {
    match s.pending {
        Request::LocateRuntime => s.proceed(reply, Request::AttachThread),
        Request::AttachThread => s.proceed(reply, Request::OpenKeyStore),
        Request::OpenKeyStore => s.proceed(reply, Request::ListAliases),
        Request::CheckException => s.waiting_for(
            if reply is Done || reply is Flag {
                Request::ClearException
            } else {
                Request::Finish
            },
        ),
        Request::ClearException => s.waiting_for(Request::Finish),
        Request::Finish => s,
        _ => if enumerates(s.pending) {
            enumerate_step(s, reply)
        } else {
            read_step(s, reply)
        },
    }
}

/// The state in which every conversation starts.
pub open spec fn initial() -> SessionView {
    SessionView {
        pending: Request::LocateRuntime,
        alias: Seq::empty(),
        certs: Seq::empty(),
        errors: Seq::empty(),
    }
}

/// The state after a whole sequence of replies, each answering the request
/// that was pending when it came.
pub open spec fn run(s: SessionView, replies: Seq<Reply>) -> SessionView
    decreases replies.len(),
{
    if replies.len() == 0 {
        s
    } else {
        step(run(s, replies.drop_last()), replies.last())
    }
}

/// The state after one more alias has been taken from the enumeration and
/// read without a failure: the enumeration says that an alias is left, hands
/// it out, and the alias is decoded (or not), fetched, encoded, measured and
/// copied out.
pub open spec fn after_alias(s: SessionView, name: Reply, length: usize, bytes: Vec<i8>)
    -> SessionView {
    let taken = step(step(s, Reply::Flag(true)), Reply::Done);
    let fetched = step(step(taken, name), Reply::Done);
    let measured = step(step(fetched, Reply::Done), Reply::Length(length));
    step(measured, Reply::Bytes(bytes))
}

/// A failure while reading an alias costs that alias and nothing else.
///
/// Whichever of the four calls fails (fetching the certificate, encoding it,
/// measuring or copying the encoding), the certificates loaded so far stay,
/// exactly one error is added, its context ends with the alias, and the
/// session goes on to ask for the next alias.
pub proof fn lemma_failed_alias_is_recorded_and_skipped(s: SessionView, reply: Reply)
    requires
        reads_alias(s.pending),
        !(s.pending is ResolveAlias),
        !succeeds(s.pending, reply),
    ensures
        step(s, reply).pending == Request::HasMoreAliases,
        step(s, reply).certs == s.certs,
        step(s, reply).errors.drop_last() == s.errors,
        step(s, reply).errors.len() == s.errors.len() + 1,
        step(s, reply).errors.last().kind == ErrorKind::Os,
        step(s, reply).errors.last().detail == failure_detail(reply),
        step(s, reply).errors.last().context == (if s.pending is FetchCertificate {
            read_failure()
        } else {
            decode_failure()
        }) + s.alias,
{
    let prefix = if s.pending is FetchCertificate {
        read_failure()
    } else {
        decode_failure()
    };
    assert(step(s, reply) == s.skipped(prefix, reply));
    assert(s.errors.push(alias_error(prefix, s.alias, reply)).drop_last() =~= s.errors);
}

/// An alias that cannot be decoded is read all the same, under the name
/// `unknown`: nothing is recorded and the enumeration is not interrupted.
pub proof fn lemma_undecodable_alias_is_still_read(s: SessionView, reply: Reply)
    requires
        s.pending is ResolveAlias,
    ensures
        step(s, reply).pending == Request::FetchCertificate,
        step(s, reply).certs == s.certs,
        step(s, reply).errors == s.errors,
        !(reply is Text) ==> step(s, reply).alias == unknown_alias(),
        reply matches Reply::Text(name) ==> step(s, reply).alias == name@,
{
}

/// Whatever was recorded before it, an alias that is read without a failure
/// adds its certificate: the bytes that were copied out, read as unsigned.
///
/// With [`lemma_failed_alias_is_recorded_and_skipped`], which leaves the
/// session asking for the next alias: an alias that fails does not keep the
/// certificates of the others out of the result.
pub proof fn lemma_alias_after_failures_is_loaded(
    s: SessionView,
    name: Reply,
    length: usize,
    bytes: Vec<i8>,
)
    requires
        s.pending is HasMoreAliases,
    ensures
        after_alias(s, name, length, bytes).pending == Request::HasMoreAliases,
        after_alias(s, name, length, bytes).certs == s.certs.push(unsigned_bytes(bytes@)),
        after_alias(s, name, length, bytes).errors == s.errors,
{
    let taken = step(step(s, Reply::Flag(true)), Reply::Done);
    assert(taken.pending is ResolveAlias);
    let fetched = step(step(taken, name), Reply::Done);
    assert(fetched.pending is EncodeCertificate);
    let measured = step(step(fetched, Reply::Done), Reply::Length(length));
    assert(measured.pending == Request::CopyEncoding { length });
}

/// No step takes anything back: what was loaded and what was recorded stay,
/// in their places, whatever the runtime answers afterwards.
pub proof fn lemma_step_keeps_what_was_collected(s: SessionView, reply: Reply)
    ensures
        s.certs.is_prefix_of(step(s, reply).certs),
        s.errors.is_prefix_of(step(s, reply).errors),
        step(s, reply).certs.len() + step(s, reply).errors.len() <= s.certs.len()
            + s.errors.len() + 1,
{
}

/// No sequence of replies takes anything back.
pub proof fn lemma_run_keeps_what_was_collected(s: SessionView, replies: Seq<Reply>)
    ensures
        s.certs.is_prefix_of(run(s, replies).certs),
        s.errors.is_prefix_of(run(s, replies).errors),
    decreases replies.len(),
{
    if replies.len() > 0 {
        lemma_run_keeps_what_was_collected(s, replies.drop_last());
        lemma_step_keeps_what_was_collected(run(s, replies.drop_last()), replies.last());
    }
}

/// A session that has asked to finish stays as it is.
pub proof fn lemma_finished_session_is_closed(s: SessionView, replies: Seq<Reply>)
    requires
        s.pending is Finish,
    ensures
        run(s, replies) == s,
    decreases replies.len(),
{
    if replies.len() > 0 {
        lemma_finished_session_is_closed(s, replies.drop_last());
    }
}

/// A failure before the aliases are read, or while moving through them, ends
/// the conversation: it is recorded, what was loaded stays, and the session
/// asks to finish.
pub proof fn lemma_failure_outside_an_alias_is_fatal(s: SessionView, reply: Reply)
    requires
        s.pending is LocateRuntime || s.pending is AttachThread || s.pending is OpenKeyStore
            || enumerates(s.pending),
        !succeeds(s.pending, reply),
    ensures
        step(s, reply).pending == Request::Finish,
        step(s, reply).certs == s.certs,
        step(s, reply).errors == s.errors.push(fatal_error(reply)),
{
}

/// Reads a buffer of the runtime's signed bytes as unsigned bytes.
pub fn reinterpret_bytes(bytes: &[i8]) -> (out: Vec<u8>)
    ensures
        out@ == unsigned_bytes(bytes@),
{
    let mut out: Vec<u8> = Vec::new();
    let mut i: usize = 0;
    while i < bytes.len()
        invariant
            i <= bytes@.len(),
            out@.len() == i,
            forall|j: int| 0 <= j < i ==> out@[j] == unsigned_byte(bytes@[j]),
        decreases bytes@.len() - i,
    {
        let b: i8 = bytes[i];
        let u: u8 = if b >= 0 {
            b as u8
        } else {
            (b as i16 + 256) as u8
        };
        out.push(u);
        i += 1;
    }
    assert(out@ =~= unsigned_bytes(bytes@));
    out
}

/// The error for a failure that ends the conversation.
fn fatal(reply: &Reply) -> (error: LoadError)
    ensures
        error@ == fatal_error(*reply),
{
    match reply {
        Reply::Failed { source, detail } => {
            let context = match source {
                FailureSource::Library => String::from_str("Failed to load library"),
                FailureSource::Ffi => String::from_str("Foreign Function operation failed"),
                FailureSource::Jni => String::from_str("Jni operation failed"),
            };
            LoadError::new(ErrorKind::Os, context, detail.clone())
        },
        _ => LoadError::new(
            ErrorKind::Os,
            String::from_str("Foreign Function operation failed"),
            String::from_str("unexpected reply"),
        ),
    }
}

/// The error for a failure while reading `alias`.
fn tagged(prefix: &str, alias: &String, reply: &Reply) -> (error: LoadError)
    ensures
        error@ == alias_error(prefix@, alias@, *reply),
{
    let mut context = String::from_str(prefix);
    context.append(alias.as_str());
    let detail = match reply {
        Reply::Failed { detail, .. } => detail.clone(),
        _ => String::from_str("unexpected reply"),
    };
    LoadError::new(ErrorKind::Os, context, detail)
}

/// A conversation with the managed runtime about its CA key store.
#[derive(Clone, Debug, PartialEq, Eq)]
pub struct Session {
    pending: Request,
    alias: String,
    result: CertificateResult,
}

impl View for Session {
    type V = SessionView;

    closed spec fn view(&self) -> SessionView {
        SessionView {
            pending: self.pending,
            alias: self.alias@,
            certs: self.result@.certs,
            errors: self.result@.errors,
        }
    }
}

impl Session {
    /// A conversation that has not begun: it waits for the runtime to be
    /// located.
    pub fn new() -> (session: Session)
        ensures
            session@ == initial(),
    {
        Session {
            pending: Request::LocateRuntime,
            alias: String::new(),
            result: CertificateResult::new(),
        }
    }

    /// The request that the session waits for a reply to.
    pub fn pending(&self) -> (request: Request)
        ensures
            request == self@.pending,
    {
        self.pending
    }

    /// Whether the conversation is over.
    pub fn is_finished(&self) -> (finished: bool)
        ensures
            finished == (self@.pending is Finish),
    {
        match self.pending {
            Request::Finish => true,
            _ => false,
        }
    }

    /// What has been loaded and recorded so far.
    pub fn result(&self) -> (result: &CertificateResult)
        ensures
            result@.certs == self@.certs,
            result@.errors == self@.errors,
    {
        &self.result
    }

    /// Ends the session and hands out what it loaded and recorded.
    pub fn into_result(self) -> (result: CertificateResult)
        ensures
            result@.certs == self@.certs,
            result@.errors == self@.errors,
    {
        self.result
    }

    /// Records a failure and ends the conversation.
    fn abort(&mut self, reply: &Reply)
        ensures
            final(self)@ == old(self)@.aborted(*reply),
    {
        self.result.push_error(fatal(reply));
        self.pending = Request::Finish;
    }

    /// Records a failure under the current alias and goes on to the next one.
    fn skip(&mut self, prefix: &str, reply: &Reply)
        ensures
            final(self)@ == old(self)@.skipped(prefix@, *reply),
    {
        let error = tagged(prefix, &self.alias, reply);
        self.result.push_error(error);
        self.pending = Request::HasMoreAliases;
    }

    /// Goes on to `next` if the call succeeded, else ends the conversation.
    fn proceed(&mut self, reply: &Reply, next: Request)
        ensures
            final(self)@ == old(self)@.proceed(*reply, next),
    {
        match reply {
            Reply::Done => {
                self.pending = next;
            },
            _ => {
                self.abort(reply);
            },
        }
    }

    /// Takes the reply to one of the calls that read the current alias.
    ///
    /// The alias is decoded first, and read under the name `unknown` if that
    /// fails. Then its certificate is fetched, encoded, measured and copied
    /// out. A failure of one of these four is recorded under the alias and
    /// ends the reading of this alias only: the next request asks for the
    /// next alias. Bytes that were copied out are read as unsigned and become
    /// one more certificate.
    fn read_certificate(&mut self, reply: &Reply)
        requires
            reads_alias(old(self)@.pending),
        ensures
            final(self)@ == read_step(old(self)@, *reply),
    {
        match self.pending {
            Request::ResolveAlias => {
                self.alias = match reply {
                    Reply::Text(alias) => alias.clone(),
                    _ => String::from_str("unknown"),
                };
                self.pending = Request::FetchCertificate;
            },
            Request::FetchCertificate => match reply {
                Reply::Done => {
                    self.pending = Request::EncodeCertificate;
                },
                _ => {
                    self.skip("Failed to read certificate. Alias: ", reply);
                },
            },
            Request::EncodeCertificate => match reply {
                Reply::Done => {
                    self.pending = Request::MeasureEncoding;
                },
                _ => {
                    self.skip("Failed to decode certificate. Alias: ", reply);
                },
            },
            Request::MeasureEncoding => match reply {
                Reply::Length(length) => {
                    self.pending = Request::CopyEncoding { length: *length };
                },
                _ => {
                    self.skip("Failed to decode certificate. Alias: ", reply);
                },
            },
            Request::CopyEncoding { .. } => match reply {
                Reply::Bytes(bytes) => {
                    let der = reinterpret_bytes(bytes.as_slice());
                    self.result.push_cert(Certificate::new(der));
                    self.pending = Request::HasMoreAliases;
                },
                _ => {
                    self.skip("Failed to decode certificate. Alias: ", reply);
                },
            },
            _ => {},
        }
    }

    /// Takes the reply to one of the calls that move through the aliases.
    ///
    /// A failure here ends the conversation; what was loaded stays.
    fn extract_certificates(&mut self, reply: &Reply)
        requires
            enumerates(old(self)@.pending),
        ensures
            final(self)@ == enumerate_step(old(self)@, *reply),
    {
        match self.pending {
            Request::ListAliases => {
                self.proceed(reply, Request::HasMoreAliases);
            },
            Request::HasMoreAliases => match reply {
                Reply::Flag(more) => {
                    if *more {
                        self.pending = Request::NextAlias;
                    } else {
                        self.pending = Request::CheckException;
                    }
                },
                _ => {
                    self.abort(reply);
                },
            },
            Request::NextAlias => {
                self.proceed(reply, Request::ResolveAlias);
            },
            _ => {},
        }
    }

    /// Takes the reply to the pending request and returns the next request.
    ///
    /// A reply of another shape than the request calls for is taken as a
    /// failure of the call.
    pub fn advance(&mut self, reply: &Reply) -> (next: Request)
        ensures
            final(self)@ == step(old(self)@, *reply),
            next == final(self)@.pending,
    {
        match self.pending {
            Request::LocateRuntime => {
                self.proceed(reply, Request::AttachThread);
            },
            Request::AttachThread => {
                self.proceed(reply, Request::OpenKeyStore);
            },
            Request::OpenKeyStore => {
                self.proceed(reply, Request::ListAliases);
            },
            Request::ListAliases | Request::HasMoreAliases | Request::NextAlias => {
                self.extract_certificates(reply);
            },
            Request::CheckException => match reply {
                Reply::Done | Reply::Flag(_) => {
                    self.pending = Request::ClearException;
                },
                _ => {
                    self.pending = Request::Finish;
                },
            },
            Request::ClearException => {
                self.pending = Request::Finish;
            },
            Request::Finish => {},
            _ => {
                self.read_certificate(reply);
            },
        }
        self.pending
    }
}

/// The outcome of a whole conversation, given what the runtime answered to
/// each request in turn.
///
/// Replies that come after the session has asked to finish change nothing.
pub fn load_native_certs(replies: &Vec<Reply>) -> (result: CertificateResult)
    ensures
        result@.certs == run(initial(), replies@).certs,
        result@.errors == run(initial(), replies@).errors,
{
    let mut session = Session::new();
    let mut i: usize = 0;
    assert(replies@.take(0) =~= Seq::<Reply>::empty());
    while i < replies.len()
        invariant
            i <= replies@.len(),
            session@ == run(initial(), replies@.take(i as int)),
        decreases replies@.len() - i,
    {
        session.advance(&replies[i]);
        i += 1;
        assert(replies@.take(i as int).drop_last() =~= replies@.take(i - 1));
    }
    assert(replies@.take(i as int) =~= replies@);
    session.into_result()
}

} // verus!
