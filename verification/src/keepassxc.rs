//! The credential store: one passphrase for one identifier, out of the
//! password manager.
//!
//! The store decides; the program around it moves the records. A lookup
//! starts with `get_passphrase`, which hands back the first step to take. The
//! program takes it (opens the socket, or writes a record and reads one) and
//! reports with `resume`, until a step says how the lookup ended. The channel
//! is connected, keyed and paired on the way, each once per run.

use crate::channel::{
    associate_tree, exchanged, fresh_channel, get_logins_tree, handshake_request,
    opened_response, pairing_of, passphrase_of, refusal, refusal_text, sealed_request, spent,
    test_associate_tree, ChannelError, ChannelView, Fault, SecureChannel, Stage,
};
use crate::config::{Identity, IdentityView};
use crate::crypto::{generate_nonce, generate_secret};
use crate::document::{Json, Tree};
use vstd::prelude::*;

verus! {

/// What the store is after.
#[derive(Clone, Copy, Debug, PartialEq, Eq, Structural)]
pub enum Goal {
    /// A pairing that the peer confirms.
    Pair,
    /// The passphrase of an identifier.
    Fetch,
}

/// What the store waits for.
#[derive(Clone, Copy, Debug, PartialEq, Eq, Structural)]
pub enum Phase {
    /// Nothing: no step is open.
    Idle,
    /// Whether the socket could be opened.
    Connecting,
    /// The answer to the key exchange.
    Handshaking,
    /// The answer to the question whether the pairing is known.
    Testing,
    /// The answer to the request for a new pairing.
    Creating,
    /// The answer to the lookup.
    Fetching,
}

/// What the program is to do next, or how the work ended.
#[derive(Debug, PartialEq, Eq)]
pub enum Step {
    /// Open the socket, then report `Reply::Opened` or `Reply::Unreachable`.
    Connect,
    /// Write this record, read one record, then report it as `Reply::Record`.
    Send(String),
    /// Done: the peer confirmed the pairing.
    Paired,
    /// Done: the passphrase.
    Found(String),
    /// Done: the password manager holds no entry for the identifier. This is
    /// an ordinary outcome, not a failure.
    NotFound,
    /// Done: the channel could not do it.
    Failed(ChannelError),
}

/// Why a lookup gave no passphrase.
#[derive(Clone, Debug, PartialEq, Eq)]
pub enum FetchError {
    /// The password manager holds no entry for the identifier. This is an
    /// ordinary outcome, not a failure.
    NotFound,
    /// The channel could not do it.
    Channel(ChannelError),
}

/// What a `FetchError` stands for.
pub enum FetchFault {
    NotFound,
    Channel(Fault),
}

impl FetchFault {
    /// The outcome in words.
    pub open spec fn message(self) -> Seq<char> {
        match self {
            FetchFault::NotFound => "no matching entry found"@,
            FetchFault::Channel(e) => e.message(),
        }
    }
}

impl FetchError {
    /// The outcome in words.
    pub fn message(&self) -> (r: String)
        ensures
            r@ == self@.message(),
    {
        match self {
            FetchError::NotFound => "no matching entry found".to_owned(),
            FetchError::Channel(e) => e.message(),
        }
    }
}

impl View for FetchError {
    type V = FetchFault;

    open spec fn view(&self) -> FetchFault {
        match self {
            FetchError::NotFound => FetchFault::NotFound,
            FetchError::Channel(e) => FetchFault::Channel(e@),
        }
    }
}

/// What a `Step` stands for.
pub enum StepView {
    Connect,
    Send(Seq<char>),
    Paired,
    Found(Seq<char>),
    NotFound,
    Failed(Fault),
}

impl StepView {
    /// How a lookup ended, where the step ends one: with the passphrase, with
    /// no entry, or with a failure of the channel.
    pub open spec fn outcome(self) -> Option<Result<Seq<char>, FetchFault>> {
        match self {
            StepView::Found(secret) => Some(Ok(secret)),
            StepView::NotFound => Some(Err(FetchFault::NotFound)),
            StepView::Failed(e) => Some(Err(FetchFault::Channel(e))),
            _ => None,
        }
    }
}

impl Step {
    /// How a lookup ended, where this step ends one.
    pub fn outcome(self) -> (r: Option<Result<String, FetchError>>)
        ensures
            match r {
                Some(Ok(secret)) => self@.outcome() == Some(
                    Ok::<Seq<char>, FetchFault>(secret@),
                ),
                Some(Err(e)) => self@.outcome() == Some(Err::<Seq<char>, FetchFault>(e@)),
                None => self@.outcome() is None,
            },
    {
        match self {
            Step::Found(secret) => Some(Ok(secret)),
            Step::NotFound => Some(Err(FetchError::NotFound)),
            Step::Failed(e) => Some(Err(FetchError::Channel(e))),
            _ => None,
        }
    }
}

impl View for Step {
    type V = StepView;

    open spec fn view(&self) -> StepView {
        match self {
            Step::Connect => StepView::Connect,
            Step::Send(text) => StepView::Send(text@),
            Step::Paired => StepView::Paired,
            Step::Found(secret) => StepView::Found(secret@),
            Step::NotFound => StepView::NotFound,
            Step::Failed(e) => StepView::Failed(e@),
        }
    }
}

/// What the program reports after a step.
#[derive(Debug, PartialEq, Eq)]
pub enum Reply {
    /// The socket is open.
    Opened,
    /// The socket could not be opened, or it broke.
    Unreachable,
    /// The record that was read, byte for byte.
    Record(Vec<u8>),
}

/// What a `Reply` stands for.
pub enum ReplyView {
    Opened,
    Unreachable,
    Record(Seq<u8>),
}

impl View for Reply {
    type V = ReplyView;

    open spec fn view(&self) -> ReplyView {
        match self {
            Reply::Opened => ReplyView::Opened,
            Reply::Unreachable => ReplyView::Unreachable,
            Reply::Record(record) => ReplyView::Record(record@),
        }
    }
}

/// The credential store: the channel, and where the work in progress stands.
pub struct CredentialStore {
    channel: SecureChannel,
    goal: Goal,
    phase: Phase,
    keygrep: String,
}

/// What a `CredentialStore` stands for.
pub struct StoreState {
    pub channel: ChannelView,
    pub goal: Goal,
    pub phase: Phase,
    pub keygrep: Seq<char>,
}

impl View for CredentialStore {
    type V = StoreState;

    closed spec fn view(&self) -> StoreState {
        StoreState {
            channel: self.channel@,
            goal: self.goal,
            phase: self.phase,
            keygrep: self.keygrep@,
        }
    }
}

/// A store at the start of a run: nothing asked yet, on a fresh channel.
pub open spec fn fresh_store(
    identity: IdentityView,
    secret: Seq<u8>,
    client_nonce: Seq<u8>,
) -> StoreState {
    StoreState {
        channel: fresh_channel(identity, secret, client_nonce),
        goal: Goal::Fetch,
        phase: Phase::Idle,
        keygrep: Seq::empty(),
    }
}

/// The work ends with a failure; the channel stays as it is.
pub open spec fn fail(s: StoreState, e: Fault) -> (StoreState, StepView) {
    (StoreState { phase: Phase::Idle, ..s }, StepView::Failed(e))
}

/// The work ends with `step`; the channel stays as it is.
pub open spec fn finish(s: StoreState, step: StepView) -> (StoreState, StepView) {
    (StoreState { phase: Phase::Idle, ..s }, step)
}

/// A sealed request goes out with `nonce`, and the store waits in `phase` for
/// its answer; or the request cannot be sealed, and the work fails.
pub open spec fn sealed_step(
    s: StoreState,
    phase: Phase,
    action: Seq<char>,
    payload: Tree,
    nonce: Seq<u8>,
) -> (StoreState, StepView) {
    match sealed_request(s.channel, action, payload, nonce) {
        Ok(text) => (
            StoreState { phase, channel: spent(s.channel, nonce), ..s },
            StepView::Send(text),
        ),
        Err(e) => fail(s, e),
    }
}

/// The request for a new pairing goes out.
pub open spec fn create_step(s: StoreState, nonce: Seq<u8>) -> (StoreState, StepView) {
    sealed_step(
        s,
        Phase::Creating,
        "associate"@,
        associate_tree(s.channel.public, s.channel.identity.id_key),
        nonce,
    )
}

/// The pairing begins: with the question whether the pairing at hand is
/// known, where there is one; with the request for a new pairing only where
/// there is none.
pub open spec fn pairing_step(s: StoreState, nonce: Seq<u8>) -> (StoreState, StepView) {
    match s.channel.identity.id {
        Some(id) => sealed_step(
            s,
            Phase::Testing,
            "test-associate"@,
            test_associate_tree(id, s.channel.identity.id_key),
            nonce,
        ),
        None => create_step(s, nonce),
    }
}

/// The lookup goes out. Without a pairing there is nothing to look up with.
pub open spec fn lookup_step(s: StoreState, nonce: Seq<u8>) -> (StoreState, StepView) {
    match s.channel.identity.id {
        Some(id) => sealed_step(
            s,
            Phase::Fetching,
            "get-logins"@,
            get_logins_tree(s.keygrep, id, s.channel.identity.id_key),
            nonce,
        ),
        None => fail(s, Fault::Association("did not associate"@)),
    }
}

/// The pairing stands: that was the goal, or the lookup follows.
pub open spec fn paired_step(s: StoreState, nonce: Seq<u8>) -> (StoreState, StepView) {
    match s.goal {
        Goal::Pair => finish(s, StepView::Paired),
        Goal::Fetch => lookup_step(s, nonce),
    }
}

/// The next step towards the goal, from where the channel stands: connect,
/// then exchange keys, then pair, then look up. Each is done once in a run: a
/// channel that is connected is not connected again, one that holds the
/// shared box exchanges no keys again, and one that is paired is asked to
/// confirm the pairing only when pairing is the goal. After a key exchange
/// that failed, none is tried again in this run.
pub open spec fn next_step(s: StoreState, nonce: Seq<u8>) -> (StoreState, StepView) {
    match s.channel.stage {
        Stage::Unconnected => (StoreState { phase: Phase::Connecting, ..s }, StepView::Connect),
        Stage::Connected => match handshake_request(s.channel, nonce) {
            Ok(text) => (
                StoreState { phase: Phase::Handshaking, channel: spent(s.channel, nonce), ..s },
                StepView::Send(text),
            ),
            Err(e) => fail(s, e),
        },
        Stage::KeyExchanged => pairing_step(s, nonce),
        Stage::Associated => match s.goal {
            Goal::Pair => pairing_step(s, nonce),
            Goal::Fetch => lookup_step(s, nonce),
        },
    }
}

/// The channel once the socket is open.
pub open spec fn opened(c: ChannelView) -> ChannelView {
    if c.stage == Stage::Unconnected {
        ChannelView { stage: Stage::Connected, ..c }
    } else {
        c
    }
}

/// What the store does with a report. `nonce` goes out with the request
/// that may follow.
pub open spec fn resume_step(s: StoreState, reply: ReplyView, nonce: Seq<u8>) -> (
    StoreState,
    StepView,
) {
    match reply {
        ReplyView::Unreachable => fail(s, Fault::Connection),
        ReplyView::Opened => match s.phase {
            Phase::Connecting => next_step(StoreState { channel: opened(s.channel), ..s }, nonce),
            _ => fail(s, Fault::Malformed),
        },
        ReplyView::Record(record) => match s.phase {
            Phase::Handshaking => {
                let (channel, failure) = exchanged(s.channel, record);
                match failure {
                    None => next_step(StoreState { channel, ..s }, nonce),
                    Some(e) => fail(StoreState { channel, ..s }, e),
                }
            },
            Phase::Testing => match opened_response(s.channel, record) {
                Ok(payload) => if pairing_of(payload) is Some && s.channel.identity.id is Some {
                    paired_step(
                        StoreState {
                            channel: ChannelView { stage: Stage::Associated, ..s.channel },
                            ..s
                        },
                        nonce,
                    )
                } else {
                    create_step(s, nonce)
                },
                Err(Fault::Refused(_)) => create_step(s, nonce),
                Err(e) => fail(s, e),
            },
            Phase::Creating => match opened_response(s.channel, record) {
                Ok(payload) => match pairing_of(payload) {
                    Some(id) => paired_step(
                        StoreState {
                            channel: ChannelView {
                                stage: Stage::Associated,
                                identity: IdentityView { id: Some(id), ..s.channel.identity },
                                ..s.channel
                            },
                            ..s
                        },
                        nonce,
                    ),
                    None => fail(s, Fault::Association(refusal_text(payload))),
                },
                Err(Fault::Refused(text)) => fail(s, Fault::Association(text)),
                Err(e) => fail(s, e),
            },
            Phase::Fetching => match opened_response(s.channel, record) {
                Ok(payload) => match passphrase_of(payload) {
                    Some(secret) => finish(s, StepView::Found(secret)),
                    None => finish(s, StepView::NotFound),
                },
                Err(e) => fail(s, e),
            },
            _ => fail(s, Fault::Malformed),
        },
    }
}

/// The first step of a pairing.
pub open spec fn associate_step(s: StoreState, nonce: Seq<u8>) -> (StoreState, StepView) {
    next_step(StoreState { goal: Goal::Pair, phase: Phase::Idle, ..s }, nonce)
}

/// The first step of a lookup.
pub open spec fn get_passphrase_step(s: StoreState, keygrep: Seq<char>, nonce: Seq<u8>) -> (
    StoreState,
    StepView,
) {
    next_step(StoreState { goal: Goal::Fetch, phase: Phase::Idle, keygrep, ..s }, nonce)
}

/// A pairing that the peer confirms asks for nothing new. Where the keys are
/// exchanged (the channel is at `KeyExchanged` or beyond) and a pairing id is
/// at hand, `associate` sends the question whether the pairing is known,
/// never the request for a new one; when the answer grants the pairing, the
/// work ends there, with the channel paired and the identity as it was. The
/// store is then again as this law asks.
pub proof fn lemma_associate_confirmed(s: StoreState, n1: Seq<u8>, answer: Seq<u8>, n2: Seq<u8>)
    requires
        s.channel.stage.rank() >= 2,
        s.channel.identity.id is Some,
        associate_step(s, n1).1 is Send,
        opened_response(associate_step(s, n1).0.channel, answer) matches Ok(payload) && pairing_of(
            payload,
        ) is Some,
    ensures
        ({
            let (s1, r1) = associate_step(s, n1);
            let (s2, r2) = resume_step(s1, ReplyView::Record(answer), n2);
            &&& sealed_request(
                s.channel,
                "test-associate"@,
                test_associate_tree(s.channel.identity.id->0, s.channel.identity.id_key),
                n1,
            ) == Ok::<Seq<char>, Fault>(r1->Send_0)
            &&& s1.phase == Phase::Testing
            &&& r2 == StepView::Paired
            &&& s2.phase == Phase::Idle
            &&& s2.channel.stage == Stage::Associated
            &&& s2.channel.identity == s.channel.identity
            &&& s2.channel.peer == s.channel.peer
            &&& s2.channel.nonces == s.channel.nonces.push(n1)
        }),
{
}

/// Pairing twice in one run, with a pairing that the peer knows: both times
/// the question is asked and granted, and no request for a new pairing goes
/// out.
pub proof fn lemma_associate_twice(
    s: StoreState,
    n1: Seq<u8>,
    answer1: Seq<u8>,
    n2: Seq<u8>,
    n3: Seq<u8>,
    answer2: Seq<u8>,
    n4: Seq<u8>,
)
    requires
        s.channel.stage.rank() >= 2,
        s.channel.identity.id is Some,
        associate_step(s, n1).1 is Send,
        opened_response(associate_step(s, n1).0.channel, answer1) matches Ok(payload)
            && pairing_of(payload) is Some,
        ({
            let s2 = resume_step(associate_step(s, n1).0, ReplyView::Record(answer1), n2).0;
            &&& associate_step(s2, n3).1 is Send
            &&& opened_response(associate_step(s2, n3).0.channel, answer2) matches Ok(payload)
                && pairing_of(payload) is Some
        }),
    ensures
        ({
            let (s1, r1) = associate_step(s, n1);
            let (s2, r2) = resume_step(s1, ReplyView::Record(answer1), n2);
            let (s3, r3) = associate_step(s2, n3);
            let (s4, r4) = resume_step(s3, ReplyView::Record(answer2), n4);
            let ask = test_associate_tree(s.channel.identity.id->0, s.channel.identity.id_key);
            &&& sealed_request(s.channel, "test-associate"@, ask, n1) == Ok::<
                Seq<char>,
                Fault,
            >(r1->Send_0)
            &&& r2 == StepView::Paired
            &&& sealed_request(s2.channel, "test-associate"@, ask, n3) == Ok::<
                Seq<char>,
                Fault,
            >(r3->Send_0)
            &&& r4 == StepView::Paired
            &&& s4.channel.identity == s.channel.identity
        }),
{
    lemma_associate_confirmed(s, n1, answer1, n2);
    let s2 = resume_step(associate_step(s, n1).0, ReplyView::Record(answer1), n2).0;
    lemma_associate_confirmed(s2, n3, answer2, n4);
}

/// An answer to the lookup that holds no entry is no failure: the lookup ends
/// with `NotFound`.
pub proof fn lemma_no_entries_not_found(s: StoreState, answer: Seq<u8>, nonce: Seq<u8>)
    requires
        s.phase == Phase::Fetching,
        opened_response(s.channel, answer) matches Ok(payload) && payload.member("entries"@)
            matches Some(entries) && entries.len() == 0,
    ensures
        resume_step(s, ReplyView::Record(answer), nonce).1 == StepView::NotFound,
        resume_step(s, ReplyView::Record(answer), nonce).1.outcome() == Some(
            Err::<Seq<char>, FetchFault>(FetchFault::NotFound),
        ),
{
}

impl CredentialStore {
    /// Whether the store's invariant holds: that of its channel.
    pub open spec fn wf(&self) -> bool {
        self@.channel.wf()
    }

    /// A store on a channel.
    pub fn new(channel: SecureChannel) -> (r: CredentialStore)
        requires
            channel.wf(),
        ensures
            r.wf(),
            r@ == (StoreState {
                channel: channel@,
                goal: Goal::Fetch,
                phase: Phase::Idle,
                keygrep: Seq::empty(),
            }),
    {
        CredentialStore { channel, goal: Goal::Fetch, phase: Phase::Idle, keygrep: String::new() }
    }

    /// The pairing identity as it stands, to be persisted when the run ends.
    pub fn identity(&self) -> (r: &Identity)
        ensures
            r@ == self@.channel.identity,
    {
        self.channel.identity()
    }

    /// How far the channel has come.
    pub fn stage(&self) -> (r: Stage)
        ensures
            r == self@.channel.stage,
    {
        self.channel.stage()
    }

    /// Whether a key exchange failed in this run.
    pub fn refused(&self) -> (r: bool)
        ensures
            r == self@.channel.refused,
    {
        self.channel.refused()
    }

    fn fail(&mut self, e: ChannelError) -> (r: Step)
        ensures
            (final(self)@, r@) == fail(old(self)@, e@),
    {
        self.phase = Phase::Idle;
        Step::Failed(e)
    }

    fn sealed(&mut self, phase: Phase, action: &str, payload: &Json, nonce: &[u8; 24]) -> (r: Step)
        requires
            old(self).wf(),
        ensures
            final(self).wf(),
            (final(self)@, r@) == sealed_step(old(self)@, phase, action@, payload@, nonce@),
    {
        match self.channel.send_encrypt(action, payload, nonce) {
            Ok(text) => {
                self.phase = phase;
                Step::Send(text)
            },
            Err(e) => self.fail(e),
        }
    }

    fn create(&mut self, nonce: &[u8; 24]) -> (r: Step)
        requires
            old(self).wf(),
        ensures
            final(self).wf(),
            (final(self)@, r@) == create_step(old(self)@, nonce@),
    {
        let payload = self.channel.associate();
        self.sealed(Phase::Creating, "associate", &payload, nonce)
    }

    fn pairing(&mut self, nonce: &[u8; 24]) -> (r: Step)
        requires
            old(self).wf(),
        ensures
            final(self).wf(),
            (final(self)@, r@) == pairing_step(old(self)@, nonce@),
    {
        match self.channel.test_associate() {
            Some(payload) => self.sealed(Phase::Testing, "test-associate", &payload, nonce),
            None => self.create(nonce),
        }
    }

    fn lookup(&mut self, nonce: &[u8; 24]) -> (r: Step)
        requires
            old(self).wf(),
        ensures
            final(self).wf(),
            (final(self)@, r@) == lookup_step(old(self)@, nonce@),
    {
        match self.channel.get_logins(self.keygrep.as_str()) {
            Some(payload) => self.sealed(Phase::Fetching, "get-logins", &payload, nonce),
            None => self.fail(ChannelError::Association("did not associate".to_owned())),
        }
    }

    fn paired(&mut self, nonce: &[u8; 24]) -> (r: Step)
        requires
            old(self).wf(),
        ensures
            final(self).wf(),
            (final(self)@, r@) == paired_step(old(self)@, nonce@),
    {
        match self.goal {
            Goal::Pair => {
                self.phase = Phase::Idle;
                Step::Paired
            },
            Goal::Fetch => self.lookup(nonce),
        }
    }

    fn proceed(&mut self, nonce: &[u8; 24]) -> (r: Step)
        requires
            old(self).wf(),
        ensures
            final(self).wf(),
            (final(self)@, r@) == next_step(old(self)@, nonce@),
    {
        match self.channel.stage() {
            Stage::Unconnected => {
                self.phase = Phase::Connecting;
                Step::Connect
            },
            Stage::Connected => match self.channel.exchange_key_request(nonce) {
                Ok(text) => {
                    self.phase = Phase::Handshaking;
                    Step::Send(text)
                },
                Err(e) => self.fail(e),
            },
            Stage::KeyExchanged => self.pairing(nonce),
            Stage::Associated => match self.goal {
                Goal::Pair => self.pairing(nonce),
                Goal::Fetch => self.lookup(nonce),
            },
        }
    }

    /// Takes the program's report on the step it took and says what to do
    /// next. `nonce` goes out with the request that may follow; a nonce that
    /// went out before fails the step.
    pub fn resume_with(&mut self, reply: &Reply, nonce: &[u8; 24]) -> (r: Step)
        requires
            old(self).wf(),
        ensures
            final(self).wf(),
            (final(self)@, r@) == resume_step(old(self)@, reply@, nonce@),
    {
        match reply {
            Reply::Unreachable => self.fail(ChannelError::Connection),
            Reply::Opened => match self.phase {
                Phase::Connecting => {
                    let _ = self.channel.connect(true);
                    self.proceed(nonce)
                },
                _ => self.fail(ChannelError::Malformed),
            },
            Reply::Record(record) => match self.phase {
                Phase::Handshaking => match self.channel.exchange_key(record.as_slice()) {
                    Ok(_) => self.proceed(nonce),
                    Err(e) => self.fail(e),
                },
                Phase::Testing => match self.channel.receive_encrypt(record.as_slice()) {
                    Ok(payload) => if self.channel.confirm_pairing(&payload) {
                        self.paired(nonce)
                    } else {
                        self.create(nonce)
                    },
                    Err(ChannelError::Refused(_)) => self.create(nonce),
                    Err(e) => self.fail(e),
                },
                Phase::Creating => match self.channel.receive_encrypt(record.as_slice()) {
                    Ok(payload) => if self.channel.adopt_pairing(&payload) {
                        self.paired(nonce)
                    } else {
                        self.fail(ChannelError::Association(refusal(&payload)))
                    },
                    Err(ChannelError::Refused(text)) => self.fail(ChannelError::Association(text)),
                    Err(e) => self.fail(e),
                },
                Phase::Fetching => match self.channel.receive_encrypt(record.as_slice()) {
                    Ok(payload) => {
                        self.phase = Phase::Idle;
                        match SecureChannel::passphrase(&payload) {
                            Some(secret) => Step::Found(secret),
                            None => Step::NotFound,
                        }
                    },
                    Err(e) => self.fail(e),
                },
                _ => self.fail(ChannelError::Malformed),
            },
        }
    }

    /// Takes the program's report on the step it took and says what to do
    /// next. A request that follows goes out with a fresh random nonce.
    pub fn resume(&mut self, reply: &Reply) -> (r: Step)
        requires
            old(self).wf(),
        ensures
            final(self).wf(),
            exists|nonce: Seq<u8>|
                nonce.len() == 24 && (final(self)@, r@) == #[trigger] resume_step(
                    old(self)@,
                    reply@,
                    nonce,
                ),
    {
        let nonce = generate_nonce();
        let r = self.resume_with(reply, &nonce);
        assert(nonce@.len() == 24 && (final(self)@, r@) == resume_step(
            old(self)@,
            reply@,
            nonce@,
        ));
        r
    }
}

/// A store for this run with the given identity: a channel that is not yet
/// connected, with a fresh key pair and a fresh client id.
pub fn init(identity: Identity) -> (r: CredentialStore)
    ensures
        r.wf(),
        exists|secret: Seq<u8>, client_nonce: Seq<u8>|
            secret.len() == 32 && client_nonce.len() == 24 && r@ == #[trigger] fresh_store(
                identity@,
                secret,
                client_nonce,
            ),
{
    let secret = generate_secret();
    let client = generate_nonce();
    let r = CredentialStore::new(SecureChannel::new(identity, secret, client));
    assert(secret@.len() == 32 && client@.len() == 24 && r@ == fresh_store(
        identity@,
        secret@,
        client@,
    ));
    r
}

/// Begins a pairing: whatever stage the channel is at, the peer is asked to
/// confirm the pairing at hand before a new one is asked for. `nonce` goes
/// out with the request that may follow; a nonce that went out before fails
/// the step.
pub fn associate_with(store: &mut CredentialStore, nonce: &[u8; 24]) -> (r: Step)
    requires
        old(store).wf(),
    ensures
        final(store).wf(),
        (final(store)@, r@) == associate_step(old(store)@, nonce@),
{
    store.goal = Goal::Pair;
    store.phase = Phase::Idle;
    store.proceed(nonce)
}

/// Begins a pairing, with a fresh random nonce.
pub fn associate(store: &mut CredentialStore) -> (r: Step)
    requires
        old(store).wf(),
    ensures
        final(store).wf(),
        exists|nonce: Seq<u8>|
            nonce.len() == 24 && (final(store)@, r@) == #[trigger] associate_step(
                old(store)@,
                nonce,
            ),
{
    let nonce = generate_nonce();
    let r = associate_with(store, &nonce);
    assert(nonce@.len() == 24 && (final(store)@, r@) == associate_step(old(store)@, nonce@));
    r
}

/// Begins the lookup of the passphrase filed under `keygrep`. `nonce` goes
/// out with the request that may follow; a nonce that went out before fails
/// the step.
pub fn get_passphrase_with(store: &mut CredentialStore, keygrep: &str, nonce: &[u8; 24]) -> (r:
    Step)
    requires
        old(store).wf(),
    ensures
        final(store).wf(),
        (final(store)@, r@) == get_passphrase_step(old(store)@, keygrep@, nonce@),
{
    store.goal = Goal::Fetch;
    store.phase = Phase::Idle;
    store.keygrep = keygrep.to_owned();
    store.proceed(nonce)
}

/// Begins the lookup of the passphrase filed under `keygrep`, with a fresh
/// random nonce.
pub fn get_passphrase(store: &mut CredentialStore, keygrep: &str) -> (r: Step)
    requires
        old(store).wf(),
    ensures
        final(store).wf(),
        exists|nonce: Seq<u8>|
            nonce.len() == 24 && (final(store)@, r@) == #[trigger] get_passphrase_step(
                old(store)@,
                keygrep@,
                nonce,
            ),
{
    let nonce = generate_nonce();
    let r = get_passphrase_with(store, keygrep, &nonce);
    assert(nonce@.len() == 24 && (final(store)@, r@) == get_passphrase_step(
        old(store)@,
        keygrep@,
        nonce@,
    ));
    r
}

} // verus!
