//! The challenge and submission ledger.
//!
//! A challenge is a geohash prefix. A participant answers it once, either with
//! a location that the oracle signed or with a proof that a private location
//! lies under the prefix. Every call either takes effect as a whole or leaves
//! the ledger as it was.

use crate::bytes::{bytes_eq, copy_bytes, is_prefix, starts_with};
use crate::groth16::{proof_verifies, verify_challenge};
use vstd::prelude::*;

verus! {

/// Who makes a call.
#[derive(Debug, Clone, Copy, PartialEq, Eq, Structural)]
pub enum Origin {
    /// The administrator.
    Root,
    /// A participant, by account.
    Signed(u64),
    /// Nobody.
    Anonymous,
}

/// Why a call was refused.
#[derive(Debug, Clone, Copy, PartialEq, Eq, Structural)]
pub enum Error {
    /// The geohash is outside the alphabet or too long, the challenge exists
    /// already, or the location does not lie under the challenge.
    InvalidGeohash,
    /// No oracle key is registered, or the registered one is malformed.
    InvalidPublicKey,
    /// The signature is malformed or does not verify.
    InvalidSignature,
    /// The participant has an accepted submission for this challenge already.
    AlreadySubmitted,
    /// The proof does not verify.
    InvalidProof,
    /// The caller may not make this call.
    BadOrigin,
}

/// What the ledger announces.
#[derive(Debug, Clone, PartialEq, Eq)]
pub enum Event {
    /// A challenge was opened.
    ChallengeCreated { who: u64, challenge: Vec<u8> },
    /// A submission was accepted; `signature` is the evidence that came with it.
    SubmissionAccepted { who: u64, challenge: Vec<u8>, signature: Vec<u8> },
}

/// The mathematical content of an [`Event`].
pub enum EventView {
    ChallengeCreated { who: u64, challenge: Seq<u8> },
    SubmissionAccepted { who: u64, challenge: Seq<u8>, signature: Seq<u8> },
}

impl View for Event {
    type V = EventView;

    open spec fn view(&self) -> EventView {
        match *self {
            Event::ChallengeCreated { who, challenge } => EventView::ChallengeCreated {
                who,
                challenge: challenge@,
            },
            Event::SubmissionAccepted { who, challenge, signature } => EventView::SubmissionAccepted {
                who,
                challenge: challenge@,
                signature: signature@,
            },
        }
    }
}

/// What the host's cryptography said of a signed location.
#[derive(Debug, Clone, Copy, PartialEq, Eq, Structural)]
pub enum Verdict {
    /// The registered oracle key could not be read as a public key.
    MalformedKey,
    /// The signature could not be read as a signature.
    MalformedSignature,
    /// The signature does not verify.
    Rejected,
    /// The signature verifies.
    Accepted,
}

/// Issues the reward for an accepted submission.
pub trait Mintable<T> {
    /// The accounts rewarded so far, oldest first.
    spec fn minted(&self) -> Seq<T>;

    /// Rewards `account`: one more reward, for this account, after those
    /// issued before.
    fn mint(&mut self, account: &T)
        ensures
            final(self).minted() == old(self).minted().push(*account),
    ;
}

/// A minter that keeps the list of the accounts it has rewarded.
pub struct MintLog<T> {
    accounts: Vec<T>,
}

impl<T: Copy> MintLog<T> {
    /// A minter that has rewarded nobody yet.
    pub fn new() -> (log: Self)
        ensures
            log.minted() == Seq::<T>::empty(),
    {
        MintLog { accounts: Vec::new() }
    }

    /// The accounts rewarded so far, oldest first.
    pub fn accounts(&self) -> (accounts: &Vec<T>)
        ensures
            accounts@ == self.minted(),
    {
        &self.accounts
    }
}

impl<T: Copy> Mintable<T> for MintLog<T> {
    closed spec fn minted(&self) -> Seq<T> {
        self.accounts@
    }

    fn mint(&mut self, account: &T) {
        self.accounts.push(*account);
    }
}

/// The cryptography that the host supplies for signed locations.
///
/// Each capability comes with a relation that says which results it may
/// have. A host that states nothing of a capability admits every result; a
/// host that states more binds the verdicts that the ledger draws from it.
pub trait Config {
    /// A public key of the oracle that has been read from bytes.
    type PublicKey;

    /// A signature that has been read from bytes.
    type Signature;

    /// `digest` is a digest that hashing `payload` may give.
    open spec fn digests(payload: Seq<u8>, digest: Seq<u8>) -> bool {
        true
    }

    /// `key` is what reading a public key from `raw` may give.
    open spec fn reads_public_key(raw: Seq<u8>, key: Option<Self::PublicKey>) -> bool {
        true
    }

    /// `signature` is what reading a signature from `raw` may give.
    open spec fn reads_signature(raw: Seq<u8>, signature: Option<Self::Signature>) -> bool {
        true
    }

    /// `accepted` is an answer that verifying `signature` over `message`
    /// under `public_key` may have.
    open spec fn accepts(
        signature: Self::Signature,
        message: Seq<u8>,
        public_key: Self::PublicKey,
        accepted: bool,
    ) -> bool {
        true
    }

    /// The digest of a payload.
    fn hash(payload: &[u8]) -> (digest: crate::keys::Hash)
        ensures
            Self::digests(payload@, digest@),
    ;

    /// Reads a public key, or returns `None` where the bytes are not one.
    fn public_key_from_slice(raw: &[u8]) -> (key: Option<Self::PublicKey>)
        ensures
            Self::reads_public_key(raw@, key),
    ;

    /// Reads a signature, or returns `None` where the bytes are not one.
    fn signature_from_slice(raw: &[u8]) -> (signature: Option<Self::Signature>)
        ensures
            Self::reads_signature(raw@, signature),
    ;

    /// Whether `signature` is one of `public_key` over `message`.
    fn verify(
        signature: &Self::Signature,
        message: &crate::keys::Hash,
        public_key: &Self::PublicKey,
    ) -> (accepted: bool)
        ensures
            Self::accepts(*signature, message@, *public_key, accepted),
    ;
}

/// The host `T` may read `key` as a public key and `signature` as a
/// signature and answer `accepted` when it verifies the one under the other
/// over a digest of `location`.
pub open spec fn verified_as<T: Config>(
    key: Seq<u8>,
    location: Seq<u8>,
    signature: Seq<u8>,
    accepted: bool,
) -> bool {
    exists|digest: Seq<u8>, public_key: T::PublicKey, parsed: T::Signature|
        {
            &&& T::digests(location, digest)
            &&& T::reads_public_key(key, Some(public_key))
            &&& T::reads_signature(signature, Some(parsed))
            &&& #[trigger] T::accepts(parsed, digest, public_key, accepted)
        }
}

/// `verdict` is one that the host `T` may give of `signature` as a signature
/// of the oracle key `key` over the digest of `location`: the key is read
/// first, then the signature, and only what was read is verified.
pub open spec fn judged<T: Config>(
    key: Seq<u8>,
    location: Seq<u8>,
    signature: Seq<u8>,
    verdict: Verdict,
) -> bool {
    match verdict {
        Verdict::MalformedKey => T::reads_public_key(key, None),
        Verdict::MalformedSignature => {
            &&& exists|public_key: T::PublicKey| #[trigger]
                T::reads_public_key(key, Some(public_key))
            &&& T::reads_signature(signature, None)
        },
        Verdict::Rejected => verified_as::<T>(key, location, signature, false),
        Verdict::Accepted => verified_as::<T>(key, location, signature, true),
    }
}

/// The characters of a geohash.
pub open spec fn geohash_alphabet() -> Seq<u8> {
    seq![
        0x30u8, 0x31u8, 0x32u8, 0x33u8, 0x34u8, 0x35u8, 0x36u8, 0x37u8,
        0x38u8, 0x39u8, 0x62u8, 0x63u8, 0x64u8, 0x65u8, 0x66u8, 0x67u8,
        0x68u8, 0x6au8, 0x6bu8, 0x6du8, 0x6eu8, 0x70u8, 0x71u8, 0x72u8,
        0x73u8, 0x74u8, 0x75u8, 0x76u8, 0x77u8, 0x78u8, 0x79u8, 0x7au8,
    ]
}

/// `symbol` is a character of a geohash: a digit, or a lower-case letter other
/// than `a`, `i`, `l` and `o`.
pub open spec fn is_geohash_symbol(symbol: u8) -> bool {
    geohash_alphabet().contains(symbol)
}

/// Every byte of `geohash` is a character of a geohash.
pub open spec fn is_geohash(geohash: Seq<u8>) -> bool {
    forall|i: int| 0 <= i < geohash.len() ==> is_geohash_symbol(#[trigger] geohash[i])
}

/// The ledger as a mathematical value.
pub struct LedgerState {
    /// The longest geohash that the ledger takes.
    pub max_geohash_length: nat,
    /// The open challenges, oldest first.
    pub challenges: Seq<Seq<u8>>,
    /// The accepted submissions, oldest first, as challenge and participant.
    pub submissions: Seq<(Seq<u8>, u64)>,
    /// The registered oracle key.
    pub oracle: Option<Seq<u8>>,
    /// The registered verifying key.
    pub verifying_key: Option<Seq<u8>>,
    /// The events announced so far, oldest first.
    pub events: Seq<EventView>,
}

impl LedgerState {
    /// No challenge and no submission is recorded twice.
    pub open spec fn well_formed(self) -> bool {
        self.challenges.no_duplicates() && self.submissions.no_duplicates()
    }

    /// An empty ledger.
    pub open spec fn empty(max_geohash_length: nat) -> LedgerState {
        LedgerState {
            max_geohash_length,
            challenges: Seq::empty(),
            submissions: Seq::empty(),
            oracle: None,
            verifying_key: None,
            events: Seq::empty(),
        }
    }

    /// `challenge` can be opened: it is a geohash of admissible length that is
    /// not open yet.
    pub open spec fn can_create(self, challenge: Seq<u8>) -> bool {
        &&& is_geohash(challenge)
        &&& challenge.len() <= self.max_geohash_length
        &&& !self.challenges.contains(challenge)
    }

    /// Opening a challenge.
    pub open spec fn create_challenge(self, origin: Origin, challenge: Seq<u8>) -> (
        LedgerState,
        Result<(), Error>,
    ) {
        match origin {
            Origin::Signed(who) => if self.can_create(challenge) {
                (
                    LedgerState {
                        challenges: self.challenges.push(challenge),
                        events: self.events.push(EventView::ChallengeCreated { who, challenge }),
                        ..self
                    },
                    Ok(()),
                )
            } else {
                (self, Err(Error::InvalidGeohash))
            },
            _ => (self, Err(Error::BadOrigin)),
        }
    }

    /// `location` lies under `challenge`, and both have admissible length.
    pub open spec fn lies_under(self, location: Seq<u8>, challenge: Seq<u8>) -> bool {
        &&& challenge.len() <= self.max_geohash_length
        &&& location.len() <= self.max_geohash_length
        &&& is_prefix(challenge, location)
    }

    /// The refusal of a signed location that needs no cryptography, if any.
    pub open spec fn early_refusal(self, origin: Origin, challenge: Seq<u8>, location: Seq<u8>)
        -> Option<Error> {
        match origin {
            Origin::Signed(who) => if self.submissions.contains((challenge, who)) {
                Some(Error::AlreadySubmitted)
            } else if !self.lies_under(location, challenge) {
                Some(Error::InvalidGeohash)
            } else if self.oracle is None {
                Some(Error::InvalidPublicKey)
            } else {
                None
            },
            _ => Some(Error::BadOrigin),
        }
    }

    /// The ledger after an accepted submission of `who` for `challenge`.
    pub open spec fn accept(self, who: u64, challenge: Seq<u8>, evidence: Seq<u8>) -> LedgerState {
        LedgerState {
            submissions: self.submissions.push((challenge, who)),
            events: self.events.push(
                EventView::SubmissionAccepted { who, challenge, signature: evidence },
            ),
            ..self
        }
    }

    /// Submitting a signed location, given what the cryptography said.
    pub open spec fn submit_signature(
        self,
        origin: Origin,
        challenge: Seq<u8>,
        location: Seq<u8>,
        signature: Seq<u8>,
        verdict: Verdict,
    ) -> (LedgerState, Result<(), Error>) {
        match self.early_refusal(origin, challenge, location) {
            Some(error) => (self, Err(error)),
            None => match verdict {
                Verdict::MalformedKey => (self, Err(Error::InvalidPublicKey)),
                Verdict::MalformedSignature => (self, Err(Error::InvalidSignature)),
                Verdict::Rejected => (self, Err(Error::InvalidSignature)),
                Verdict::Accepted => (self.accept(origin->Signed_0, challenge, signature), Ok(())),
            },
        }
    }

    /// Submitting a proof, given whether it verifies: a participant who has
    /// an accepted submission for the challenge is refused before the proof
    /// is looked at.
    pub open spec fn submit_proof(
        self,
        origin: Origin,
        challenge: Seq<u8>,
        proof: Seq<u8>,
        verifies: bool,
    ) -> (LedgerState, Result<(), Error>) {
        match origin {
            Origin::Signed(who) => if self.submissions.contains((challenge, who)) {
                (self, Err(Error::AlreadySubmitted))
            } else if verifies {
                (self.accept(who, challenge, proof), Ok(()))
            } else {
                (self, Err(Error::InvalidProof))
            },
            _ => (self, Err(Error::BadOrigin)),
        }
    }

    /// Whether `proof` verifies for `challenge` under the registered key.
    pub open spec fn proof_accepted(self, challenge: Seq<u8>, proof: Seq<u8>) -> bool {
        match self.verifying_key {
            Some(key) => proof_verifies(key, challenge, proof),
            None => false,
        }
    }

    /// Registering the oracle key.
    pub open spec fn set_oracle_public_key(self, origin: Origin, key: Seq<u8>) -> (
        LedgerState,
        Result<(), Error>,
    ) {
        match origin {
            Origin::Root => (LedgerState { oracle: Some(key), ..self }, Ok(())),
            _ => (self, Err(Error::BadOrigin)),
        }
    }

    /// Registering the verifying key.
    pub open spec fn set_verifying_key(self, origin: Origin, key: Seq<u8>) -> (
        LedgerState,
        Result<(), Error>,
    ) {
        match origin {
            Origin::Root => (LedgerState { verifying_key: Some(key), ..self }, Ok(())),
            _ => (self, Err(Error::BadOrigin)),
        }
    }
}

/// An accepted submission.
struct Submission {
    challenge: Vec<u8>,
    who: u64,
}

/// The ledger.
pub struct Pallet {
    max_geohash_length: usize,
    challenges: Vec<Vec<u8>>,
    submissions: Vec<Submission>,
    oracle: Option<Vec<u8>>,
    verifying_key: Option<Vec<u8>>,
    events: Vec<Event>,
}

/// The view of an optional byte string.
pub open spec fn optional_bytes(bytes: Option<Vec<u8>>) -> Option<Seq<u8>> {
    match bytes {
        Some(b) => Some(b@),
        None => None,
    }
}

impl View for Pallet {
    type V = LedgerState;

    closed spec fn view(&self) -> LedgerState {
        LedgerState {
            max_geohash_length: self.max_geohash_length as nat,
            challenges: Seq::new(self.challenges@.len(), |i: int| self.challenges@[i]@),
            submissions: Seq::new(
                self.submissions@.len(),
                |i: int| (self.submissions@[i].challenge@, self.submissions@[i].who),
            ),
            oracle: optional_bytes(self.oracle),
            verifying_key: optional_bytes(self.verifying_key),
            events: Seq::new(self.events@.len(), |i: int| self.events@[i]@),
        }
    }
}

impl Pallet {
    /// An empty ledger that takes geohashes of up to `max_geohash_length` bytes.
    pub fn new(max_geohash_length: usize) -> (pallet: Self)
        ensures
            pallet@ == LedgerState::empty(max_geohash_length as nat),
    {
        let pallet = Pallet {
            max_geohash_length,
            challenges: Vec::new(),
            submissions: Vec::new(),
            oracle: None,
            verifying_key: None,
            events: Vec::new(),
        };
        assert(pallet@.challenges =~= Seq::empty());
        assert(pallet@.submissions =~= Seq::empty());
        assert(pallet@.events =~= Seq::empty());
        pallet
    }

    /// Whether every byte of `geohash` is a character of a geohash.
    pub fn valid_geohash(geohash: &[u8]) -> (valid: bool)
        ensures
            valid == is_geohash(geohash@),
    {
        let mut i: usize = 0;
        while i < geohash.len()
            invariant
                i <= geohash.len(),
                forall|j: int| 0 <= j < i ==> is_geohash_symbol(#[trigger] geohash@[j]),
            decreases geohash.len() - i,
        {
            if !geohash_symbol(geohash[i]) {
                return false;
            }
            i += 1;
        }
        true
    }

    /// Whether `geohash` lies in the region of `challenge`: whether it starts
    /// with it.
    pub fn geohash_in_geohash(geohash: &[u8], challenge: &[u8]) -> (inside: bool)
        ensures
            inside == is_prefix(challenge@, geohash@),
    {
        starts_with(geohash, challenge)
    }

    /// Whether `challenge` is open.
    pub fn challenge_exists(&self, challenge: &[u8]) -> (found: bool)
        ensures
            found == self@.challenges.contains(challenge@),
    {
        let mut i: usize = 0;
        while i < self.challenges.len()
            invariant
                i <= self.challenges@.len(),
                forall|j: int| 0 <= j < i ==> self@.challenges[j] != challenge@,
            decreases self.challenges@.len() - i,
        {
            if bytes_eq(self.challenges[i].as_slice(), challenge) {
                assert(self@.challenges[i as int] == challenge@);
                return true;
            }
            i += 1;
        }
        false
    }

    /// Whether `who` has an accepted submission for `challenge`.
    pub fn has_submitted(&self, challenge: &[u8], who: u64) -> (found: bool)
        ensures
            found == self@.submissions.contains((challenge@, who)),
    {
        let mut i: usize = 0;
        while i < self.submissions.len()
            invariant
                i <= self.submissions@.len(),
                forall|j: int| 0 <= j < i ==> self@.submissions[j] != (challenge@, who),
            decreases self.submissions@.len() - i,
        {
            if self.submissions[i].who == who && bytes_eq(
                self.submissions[i].challenge.as_slice(),
                challenge,
            ) {
                assert(self@.submissions[i as int] == (challenge@, who));
                return true;
            }
            i += 1;
        }
        false
    }

    /// The number of open challenges.
    pub fn challenge_count(&self) -> (count: usize)
        ensures
            count == self@.challenges.len(),
    {
        self.challenges.len()
    }

    /// The number of accepted submissions.
    pub fn submission_count(&self) -> (count: usize)
        ensures
            count == self@.submissions.len(),
    {
        self.submissions.len()
    }

    /// The registered oracle key, if any.
    pub fn oracle_public_key(&self) -> (key: Option<Vec<u8>>)
        ensures
            optional_bytes(key) == self@.oracle,
    {
        match &self.oracle {
            Some(key) => Some(copy_bytes(key.as_slice())),
            None => None,
        }
    }

    /// The events announced so far, oldest first.
    pub fn events(&self) -> (events: &Vec<Event>)
        ensures
            events@.len() == self@.events.len(),
            forall|i: int| 0 <= i < events@.len() ==> events@[i]@ == self@.events[i],
    {
        &self.events
    }

    /// Opens `challenge` for the participant who calls.
    ///
    /// Refused with `InvalidGeohash` when the challenge is not a geohash, is
    /// too long or is open already, and with `BadOrigin` when the caller is
    /// not a participant. A refused call changes nothing.
    pub fn create_challenge(&mut self, origin: Origin, challenge: Vec<u8>) -> (result: Result<
        (),
        Error,
    >)
        ensures
            (final(self)@, result) == old(self)@.create_challenge(origin, challenge@),
    {
        let who = match origin {
            Origin::Signed(who) => who,
            _ => { return Err(Error::BadOrigin); },
        };
        if !Self::valid_geohash(challenge.as_slice()) || challenge.len() > self.max_geohash_length
            || self.challenge_exists(challenge.as_slice()) {
            return Err(Error::InvalidGeohash);
        }
        let announced = copy_bytes(challenge.as_slice());
        let ghost before = self@;
        self.challenges.push(challenge);
        assert(self@.challenges =~= before.challenges.push(challenge@));
        assert(self@.submissions =~= before.submissions);
        assert(self@.events =~= before.events);
        self.events.push(Event::ChallengeCreated { who, challenge: announced });
        assert(self@.events =~= before.events.push(
            EventView::ChallengeCreated { who, challenge: challenge@ },
        ));
        assert(self@.challenges =~= before.challenges.push(challenge@));
        assert(self@.submissions =~= before.submissions);
        Ok(())
    }

    /// Registers the oracle key in place of any earlier one. Only the
    /// administrator may do so; anyone else is refused with `BadOrigin`.
    pub fn set_oracle_public_key(&mut self, origin: Origin, public_key: Vec<u8>) -> (result: Result<
        (),
        Error,
    >)
        ensures
            (final(self)@, result) == old(self)@.set_oracle_public_key(origin, public_key@),
    {
        match origin {
            Origin::Root => {},
            _ => { return Err(Error::BadOrigin); },
        }
        let ghost before = self@;
        self.oracle = Some(public_key);
        assert(self@.challenges =~= before.challenges);
        assert(self@.submissions =~= before.submissions);
        assert(self@.events =~= before.events);
        Ok(())
    }

    /// Registers the verifying key in place of any earlier one. Only the
    /// administrator may do so; anyone else is refused with `BadOrigin`.
    pub fn set_verifying_key(&mut self, origin: Origin, verifying_key: Vec<u8>) -> (result: Result<
        (),
        Error,
    >)
        ensures
            (final(self)@, result) == old(self)@.set_verifying_key(origin, verifying_key@),
    {
        match origin {
            Origin::Root => {},
            _ => { return Err(Error::BadOrigin); },
        }
        let ghost before = self@;
        self.verifying_key = Some(verifying_key);
        assert(self@.challenges =~= before.challenges);
        assert(self@.submissions =~= before.submissions);
        assert(self@.events =~= before.events);
        Ok(())
    }

    /// The refusal of a signed location that needs no cryptography, if any:
    /// a caller who is no participant, a repeated submission, a location
    /// outside the challenge, or no registered oracle key, in this order.
    pub fn early_refusal(&self, origin: Origin, challenge: &[u8], location: &[u8]) -> (refusal:
        Option<Error>)
        ensures
            refusal == self@.early_refusal(origin, challenge@, location@),
    {
        let who = match origin {
            Origin::Signed(who) => who,
            _ => { return Some(Error::BadOrigin); },
        };
        if self.has_submitted(challenge, who) {
            return Some(Error::AlreadySubmitted);
        }
        if challenge.len() > self.max_geohash_length || location.len() > self.max_geohash_length
            || !Self::geohash_in_geohash(location, challenge) {
            return Some(Error::InvalidGeohash);
        }
        if self.oracle.is_none() {
            return Some(Error::InvalidPublicKey);
        }
        None
    }

    /// Records a submission of `who` for `challenge` with its evidence.
    fn accept(&mut self, who: u64, challenge: Vec<u8>, evidence: Vec<u8>)
        ensures
            final(self)@ == old(self)@.accept(who, challenge@, evidence@),
    {
        let ghost before = self@;
        let announced = copy_bytes(challenge.as_slice());
        self.submissions.push(Submission { challenge, who });
        assert(self@.submissions =~= before.submissions.push((challenge@, who)));
        assert(self@.challenges =~= before.challenges);
        assert(self@.events =~= before.events);
        let ghost recorded = self@;
        self.events.push(Event::SubmissionAccepted { who, challenge: announced, signature: evidence });
        assert(self@.events =~= before.events.push(
            EventView::SubmissionAccepted { who, challenge: challenge@, signature: evidence@ },
        ));
        assert(self@.challenges =~= before.challenges);
        assert(self@.submissions =~= recorded.submissions);
    }

    /// Concludes the submission of a signed location once the cryptography
    /// has spoken: accepted and recorded where nothing stands against it and
    /// the verdict is an acceptance, refused without effect otherwise.
    pub fn settle_signature_submission(
        &mut self,
        origin: Origin,
        challenge: Vec<u8>,
        location: &[u8],
        signature: Vec<u8>,
        verdict: Verdict,
    ) -> (result: Result<(), Error>)
        ensures
            (final(self)@, result) == old(self)@.submit_signature(
                origin,
                challenge@,
                location@,
                signature@,
                verdict,
            ),
    {
        if let Some(error) = self.early_refusal(origin, challenge.as_slice(), location) {
            return Err(error);
        }
        let who = match origin {
            Origin::Signed(who) => who,
            _ => { return Err(Error::BadOrigin); },
        };
        match verdict {
            Verdict::MalformedKey => Err(Error::InvalidPublicKey),
            Verdict::MalformedSignature => Err(Error::InvalidSignature),
            Verdict::Rejected => Err(Error::InvalidSignature),
            Verdict::Accepted => {
                self.accept(who, challenge, signature);
                Ok(())
            },
        }
    }

    /// Asks the host's cryptography whether `signature` is one of the oracle
    /// key `key` over the digest of `location`.
    pub fn judge<T: Config>(key: &[u8], location: &[u8], signature: &[u8]) -> (verdict: Verdict)
        ensures
            judged::<T>(key@, location@, signature@, verdict),
    {
        let message = T::hash(location);
        let public_key = match T::public_key_from_slice(key) {
            Some(public_key) => public_key,
            None => { return Verdict::MalformedKey; },
        };
        let parsed = match T::signature_from_slice(signature) {
            Some(parsed) => parsed,
            None => {
                assert(T::reads_public_key(key@, Some(public_key)));
                return Verdict::MalformedSignature;
            },
        };
        let accepted = T::verify(&parsed, &message, &public_key);
        assert(T::accepts(parsed, message@, public_key, accepted));
        if accepted {
            Verdict::Accepted
        } else {
            Verdict::Rejected
        }
    }

    /// Submits a location signed by the oracle in answer to `challenge`.
    ///
    /// The checks run in this order, and the first that fails decides: the
    /// caller is a participant (`BadOrigin`), has not answered this challenge
    /// before (`AlreadySubmitted`), the location lies under the challenge
    /// (`InvalidGeohash`), an oracle key is registered and well-formed
    /// (`InvalidPublicKey`), the signature is well-formed and verifies over
    /// the digest of the location (`InvalidSignature`). On success the
    /// participant is rewarded once, the submission is recorded and announced.
    /// A refused call changes nothing and rewards nobody.
    pub fn submission_with_signature<T: Config, M: Mintable<u64>>(
        &mut self,
        minter: &mut M,
        origin: Origin,
        challenge: Vec<u8>,
        location: Vec<u8>,
        signature: Vec<u8>,
    ) -> (result: Result<(), Error>)
        ensures
            match old(self)@.early_refusal(origin, challenge@, location@) {
                Some(error) => result == Err::<(), Error>(error) && final(self)@ == old(self)@,
                None => exists|verdict: Verdict|
                    {
                        &&& #[trigger] judged::<T>(
                            old(self)@.oracle->Some_0,
                            location@,
                            signature@,
                            verdict,
                        )
                        &&& (final(self)@, result) == old(self)@.submit_signature(
                            origin,
                            challenge@,
                            location@,
                            signature@,
                            verdict,
                        )
                    },
            },
            result is Err ==> final(self)@ == old(self)@,
            result is Ok ==> final(self)@ == old(self)@.accept(
                origin->Signed_0,
                challenge@,
                signature@,
            ),
            result is Ok ==> final(minter).minted() == old(minter).minted().push(origin->Signed_0),
            result is Err ==> final(minter).minted() == old(minter).minted(),
    {
        if let Some(error) = self.early_refusal(origin, challenge.as_slice(), location.as_slice()) {
            return Err(error);
        }
        let who = match origin {
            Origin::Signed(who) => who,
            _ => { return Err(Error::BadOrigin); },
        };
        let ghost before = self@;
        let verdict = match &self.oracle {
            Some(key) => {
                assert(before.oracle == Some(key@));
                Self::judge::<T>(key.as_slice(), location.as_slice(), signature.as_slice())
            },
            None => { return Err(Error::InvalidPublicKey); },
        };
        assert(judged::<T>(before.oracle->Some_0, location@, signature@, verdict));
        let result = self.settle_signature_submission(
            origin,
            challenge,
            location.as_slice(),
            signature,
            verdict,
        );
        if result.is_ok() {
            minter.mint(&who);
        }
        result
    }

    /// Whether `proof` verifies for `challenge` under the registered
    /// verifying key. Without a registered key nothing verifies.
    pub fn verify_zkp(&self, proof: &[u8], challenge: &[u8]) -> (verifies: bool)
        ensures
            verifies == self@.proof_accepted(challenge@, proof@),
    {
        match &self.verifying_key {
            Some(key) => verify_challenge(key.as_slice(), challenge, proof),
            None => false,
        }
    }

    /// Concludes the submission of a proof once it has been checked: accepted
    /// and recorded where the caller is a participant without an accepted
    /// submission for the challenge and the proof verifies, refused without
    /// effect otherwise.
    pub fn settle_proof_submission(
        &mut self,
        origin: Origin,
        challenge: Vec<u8>,
        proof: Vec<u8>,
        verifies: bool,
    ) -> (result: Result<(), Error>)
        ensures
            (final(self)@, result) == old(self)@.submit_proof(origin, challenge@, proof@, verifies),
    {
        let who = match origin {
            Origin::Signed(who) => who,
            _ => { return Err(Error::BadOrigin); },
        };
        if self.has_submitted(challenge.as_slice(), who) {
            return Err(Error::AlreadySubmitted);
        }
        if !verifies {
            return Err(Error::InvalidProof);
        }
        self.accept(who, challenge, proof);
        Ok(())
    }

    /// Submits a proof that a private location lies under `challenge`.
    ///
    /// The checks run in this order, and the first that fails decides: the
    /// caller is a participant (`BadOrigin`), has no accepted submission for
    /// this challenge yet (`AlreadySubmitted`), the proof verifies under the
    /// registered verifying key with the challenge as public input
    /// (`InvalidProof`). On success the participant is rewarded once, and the
    /// submission is recorded and announced with the proof as its evidence.
    /// A refused call changes nothing and rewards nobody.
    pub fn submission_with_proof<M: Mintable<u64>>(
        &mut self,
        minter: &mut M,
        origin: Origin,
        challenge: Vec<u8>,
        proof: Vec<u8>,
    ) -> (result: Result<(), Error>)
        ensures
            (final(self)@, result) == old(self)@.submit_proof(
                origin,
                challenge@,
                proof@,
                old(self)@.proof_accepted(challenge@, proof@),
            ),
            result is Ok ==> final(minter).minted() == old(minter).minted().push(origin->Signed_0),
            result is Err ==> final(minter).minted() == old(minter).minted(),
    {
        let who = match origin {
            Origin::Signed(who) => who,
            _ => { return Err(Error::BadOrigin); },
        };
        if self.has_submitted(challenge.as_slice(), who) {
            return Err(Error::AlreadySubmitted);
        }
        let verifies = self.verify_zkp(proof.as_slice(), challenge.as_slice());
        let result = self.settle_proof_submission(origin, challenge, proof, verifies);
        if result.is_ok() {
            minter.mint(&who);
        }
        result
    }
}

/// Opening the same challenge twice: where the first call succeeds, the
/// second is refused with `InvalidGeohash` and changes nothing, so the
/// challenge is recorded once.
pub proof fn lemma_duplicate_challenge_refused(
    state: LedgerState,
    first: Origin,
    second: Origin,
    challenge: Seq<u8>,
)
    requires
        state.create_challenge(first, challenge).1 is Ok,
        second is Signed,
    ensures
        ({
            let opened = state.create_challenge(first, challenge).0;
            &&& opened.challenges.len() == state.challenges.len() + 1
            &&& opened.create_challenge(second, challenge) == (
                opened,
                Err::<(), Error>(Error::InvalidGeohash),
            )
        }),
{
    let opened = state.create_challenge(first, challenge).0;
    assert(opened.challenges[state.challenges.len() as int] == challenge);
}

/// One accepted submission for each challenge and participant, of
/// whichever kind: once a signed location or a proof of a participant has
/// been accepted for a challenge, every later submission of that participant
/// for that challenge, signed location or proof, is refused with
/// `AlreadySubmitted` and changes nothing, whatever it brings and whatever
/// the checks say of it.
pub proof fn lemma_one_submission_for_each_pair(
    state: LedgerState,
    who: u64,
    challenge: Seq<u8>,
    location: Seq<u8>,
    evidence: Seq<u8>,
    verdict: Verdict,
    verifies: bool,
    next_location: Seq<u8>,
    next_evidence: Seq<u8>,
    next_verdict: Verdict,
    next_verifies: bool,
)
    ensures
        ({
            let (accepted, result) = state.submit_signature(
                Origin::Signed(who),
                challenge,
                location,
                evidence,
                verdict,
            );
            result is Ok ==> {
                &&& accepted.submit_signature(
                    Origin::Signed(who),
                    challenge,
                    next_location,
                    next_evidence,
                    next_verdict,
                ) == (accepted, Err::<(), Error>(Error::AlreadySubmitted))
                &&& accepted.submit_proof(
                    Origin::Signed(who),
                    challenge,
                    next_evidence,
                    next_verifies,
                ) == (accepted, Err::<(), Error>(Error::AlreadySubmitted))
            }
        }),
        ({
            let (accepted, result) = state.submit_proof(
                Origin::Signed(who),
                challenge,
                evidence,
                verifies,
            );
            result is Ok ==> {
                &&& accepted.submit_signature(
                    Origin::Signed(who),
                    challenge,
                    next_location,
                    next_evidence,
                    next_verdict,
                ) == (accepted, Err::<(), Error>(Error::AlreadySubmitted))
                &&& accepted.submit_proof(
                    Origin::Signed(who),
                    challenge,
                    next_evidence,
                    next_verifies,
                ) == (accepted, Err::<(), Error>(Error::AlreadySubmitted))
            }
        }),
{
    let accepted = state.accept(who, challenge, evidence);
    assert(accepted.submissions[state.submissions.len() as int] == (challenge, who));
}

/// A proof is accepted exactly where the caller is a participant without an
/// accepted submission for the challenge and the proof verifies.
pub proof fn lemma_accepted_proof(
    state: LedgerState,
    origin: Origin,
    challenge: Seq<u8>,
    proof: Seq<u8>,
    verifies: bool,
)
    ensures
        state.submit_proof(origin, challenge, proof, verifies).1 is Ok <==> {
            &&& origin is Signed
            &&& !state.submissions.contains((challenge, origin->Signed_0))
            &&& verifies
        },
{
}

/// A submission is accepted only where the location lies under the
/// challenge, an oracle key is registered and the signature verifies.
pub proof fn lemma_accepted_submission(
    state: LedgerState,
    origin: Origin,
    challenge: Seq<u8>,
    location: Seq<u8>,
    signature: Seq<u8>,
    verdict: Verdict,
)
    ensures
        state.submit_signature(origin, challenge, location, signature, verdict).1 is Ok <==> {
            &&& origin is Signed
            &&& !state.submissions.contains((challenge, origin->Signed_0))
            &&& state.lies_under(location, challenge)
            &&& state.oracle is Some
            &&& verdict == Verdict::Accepted
        },
{
}

/// A refused call leaves the ledger as it was.
pub proof fn lemma_refusal_changes_nothing(
    state: LedgerState,
    origin: Origin,
    challenge: Seq<u8>,
    location: Seq<u8>,
    evidence: Seq<u8>,
    verdict: Verdict,
    verifies: bool,
)
    ensures
        state.create_challenge(origin, challenge).1 is Err ==> state.create_challenge(
            origin,
            challenge,
        ).0 == state,
        state.submit_signature(origin, challenge, location, evidence, verdict).1 is Err
            ==> state.submit_signature(origin, challenge, location, evidence, verdict).0 == state,
        state.submit_proof(origin, challenge, evidence, verifies).1 is Err ==> state.submit_proof(
            origin,
            challenge,
            evidence,
            verifies,
        ).0 == state,
        state.set_oracle_public_key(origin, evidence).1 is Err ==> state.set_oracle_public_key(
            origin,
            evidence,
        ).0 == state,
        state.set_verifying_key(origin, evidence).1 is Err ==> state.set_verifying_key(
            origin,
            evidence,
        ).0 == state,
{
}

/// Every call keeps the ledger free of repeated challenges and repeated
/// submissions, and an accepted submission is on record afterwards.
pub proof fn lemma_calls_keep_well_formed(
    state: LedgerState,
    origin: Origin,
    challenge: Seq<u8>,
    location: Seq<u8>,
    evidence: Seq<u8>,
    verdict: Verdict,
    verifies: bool,
)
    requires
        state.well_formed(),
    ensures
        LedgerState::empty(state.max_geohash_length).well_formed(),
        state.create_challenge(origin, challenge).0.well_formed(),
        state.submit_signature(origin, challenge, location, evidence, verdict).0.well_formed(),
        state.submit_proof(origin, challenge, evidence, verifies).0.well_formed(),
        state.set_oracle_public_key(origin, evidence).0.well_formed(),
        state.set_verifying_key(origin, evidence).0.well_formed(),
        state.submit_signature(origin, challenge, location, evidence, verdict).1 is Ok
            ==> state.submit_signature(
            origin,
            challenge,
            location,
            evidence,
            verdict,
        ).0.submissions.contains((challenge, origin->Signed_0)),
        state.submit_proof(origin, challenge, evidence, verifies).1 is Ok ==> state.submit_proof(
            origin,
            challenge,
            evidence,
            verifies,
        ).0.submissions.contains((challenge, origin->Signed_0)),
{
    if origin is Signed {
        let who = origin->Signed_0;
        let accepted = state.accept(who, challenge, evidence);
        assert(accepted.submissions[state.submissions.len() as int] == (challenge, who));
        if !state.submissions.contains((challenge, who)) {
            assert(accepted.well_formed());
        }
        let opened = state.create_challenge(origin, challenge).0;
        assert(opened.well_formed());
    }
}

/// Challenges and submissions are permanent: whatever a call does, a
/// challenge that was open stays open and a submission that was on record
/// stays on record.
pub proof fn lemma_records_are_permanent(
    state: LedgerState,
    origin: Origin,
    challenge: Seq<u8>,
    location: Seq<u8>,
    evidence: Seq<u8>,
    verdict: Verdict,
    verifies: bool,
    opened: Seq<u8>,
    recorded: (Seq<u8>, u64),
)
    requires
        state.challenges.contains(opened),
        state.submissions.contains(recorded),
    ensures
        ({
            let after = state.create_challenge(origin, challenge).0;
            after.challenges.contains(opened) && after.submissions.contains(recorded)
        }),
        ({
            let after = state.submit_signature(origin, challenge, location, evidence, verdict).0;
            after.challenges.contains(opened) && after.submissions.contains(recorded)
        }),
        ({
            let after = state.submit_proof(origin, challenge, evidence, verifies).0;
            after.challenges.contains(opened) && after.submissions.contains(recorded)
        }),
        ({
            let after = state.set_oracle_public_key(origin, evidence).0;
            after.challenges.contains(opened) && after.submissions.contains(recorded)
        }),
        ({
            let after = state.set_verifying_key(origin, evidence).0;
            after.challenges.contains(opened) && after.submissions.contains(recorded)
        }),
{
    let i = choose|i: int| 0 <= i < state.challenges.len() && state.challenges[i] == opened;
    let j = choose|j: int| 0 <= j < state.submissions.len() && state.submissions[j] == recorded;
    assert(state.challenges.push(challenge)[i] == opened);
    if origin is Signed {
        assert(state.submissions.push((challenge, origin->Signed_0))[j] == recorded);
    }
}

/// Whether `symbol` is a character of a geohash.
pub fn geohash_symbol(symbol: u8) -> (valid: bool)
    ensures
        valid == is_geohash_symbol(symbol),
{
    let alphabet: [u8; 32] = [
        0x30, 0x31, 0x32, 0x33, 0x34, 0x35, 0x36, 0x37,
        0x38, 0x39, 0x62, 0x63, 0x64, 0x65, 0x66, 0x67,
        0x68, 0x6a, 0x6b, 0x6d, 0x6e, 0x70, 0x71, 0x72,
        0x73, 0x74, 0x75, 0x76, 0x77, 0x78, 0x79, 0x7a,
    ];
    assert(alphabet@ =~= geohash_alphabet());
    let mut i: usize = 0;
    while i < 32
        invariant
            i <= 32,
            alphabet@ == geohash_alphabet(),
            forall|j: int| 0 <= j < i ==> alphabet@[j] != symbol,
        decreases 32 - i,
    {
        if alphabet[i] == symbol {
            return true;
        }
        i += 1;
    }
    false
}

} // verus!
