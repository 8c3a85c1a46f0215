//! A proving session, step by step: which piece of outside work comes next,
//! for one party and for several. The session decides; its caller does the
//! work that a step names and reports back how it went.

use crate::circuit::PlonkCircuit;
use crate::error::Error;
use crate::pow2::{lemma_next_pow2, next_pow2, next_power_of_two};
use vstd::prelude::*;

verus! {

/// In which way a session proves.
#[derive(Clone, Copy, Debug, PartialEq, Eq, Structural)]
pub enum Mode {
    /// One party proves over plain field elements.
    SingleParty,
    /// Several parties prove over shares, and open the proof before it is
    /// verified.
    MultiParty,
}

/// How far a session has come.
#[derive(Clone, Copy, Debug, PartialEq, Eq, Structural)]
pub enum Stage {
    /// Nothing has been asked for yet.
    Created,
    /// The universal setup has been asked for.
    SettingUp,
    /// The keys of the circuit have been asked for.
    DerivingKeys,
    /// The proving key over shares has been asked for.
    SharingKey,
    /// The proof has been asked for.
    Proving,
    /// The opening of the shared proof has been asked for.
    Revealing,
    /// The verification has been asked for.
    Verifying,
    /// The proof was verified and accepted.
    Accepted,
    /// The proof was verified and rejected.
    Rejected,
    /// The session failed.
    Failed(Error),
}

/// What a session is told.
#[derive(Clone, Copy, Debug, PartialEq, Eq, Structural)]
pub enum Event {
    /// The session is to begin.
    Start,
    /// The universal setup is there, and holds `max_gates` gates.
    SetupReady { max_gates: usize },
    /// The proving key and the verifying key of the circuit are there.
    KeysReady,
    /// The proving key over shares is there.
    KeyShared,
    /// The proof is there.
    ProofReady,
    /// The shared proof has been opened.
    ProofRevealed,
    /// The shared proof could not be opened.
    RevealFailed,
    /// The proof has been verified.
    Verdict { accepted: bool },
}

/// What a session asks for next.
#[derive(Clone, Copy, Debug, PartialEq, Eq, Structural)]
pub enum Action {
    /// Make a universal setup that holds `max_gates` gates.
    UniversalSetup { max_gates: usize },
    /// Derive the proving key and the verifying key from the setup and the
    /// verifier's circuit.
    CircuitSetup,
    /// Turn the proving key into one over shares.
    ShareProvingKey,
    /// Prove with the proving key over the prover's circuit.
    Prove,
    /// Open the shared proof.
    Reveal,
    /// Verify the proof against the verifying key, the verifier's circuit and
    /// the public inputs.
    Verify,
    /// Nothing more: the proof was verified, and accepted or rejected.
    Finish { accepted: bool },
    /// Nothing more: the session failed.
    Abort(Error),
}

/// Whether nothing follows the stage.
pub open spec fn is_final(stage: Stage) -> bool {
    stage is Accepted || stage is Rejected || stage is Failed
}

/// Whether a session in `mode` can be at `stage`: for one party no key is
/// turned into one over shares and no proof is opened.
pub open spec fn fits(mode: Mode, stage: Stage) -> bool {
    mode == Mode::SingleParty ==> !(stage is SharingKey) && !(stage is Revealing)
}

/// The stage and the action that follow when a session in `mode` for a
/// circuit of `gates` gates is told of `event` at `stage`.
pub open spec fn transition(mode: Mode, gates: usize, stage: Stage, event: Event) -> (
    Stage,
    Action,
) {
    match (stage, event) {
        (Stage::Created, Event::Start) => {
            if next_pow2(gates as nat) <= usize::MAX {
                (
                    Stage::SettingUp,
                    Action::UniversalSetup { max_gates: next_pow2(gates as nat) as usize },
                )
            } else {
                (Stage::Failed(Error::SetupTooSmall), Action::Abort(Error::SetupTooSmall))
            }
        },
        (Stage::SettingUp, Event::SetupReady { max_gates }) => {
            if max_gates >= gates {
                (Stage::DerivingKeys, Action::CircuitSetup)
            } else {
                (Stage::Failed(Error::SetupTooSmall), Action::Abort(Error::SetupTooSmall))
            }
        },
        (Stage::DerivingKeys, Event::KeysReady) => match mode {
            Mode::SingleParty => (Stage::Proving, Action::Prove),
            Mode::MultiParty => (Stage::SharingKey, Action::ShareProvingKey),
        },
        (Stage::SharingKey, Event::KeyShared) => (Stage::Proving, Action::Prove),
        (Stage::Proving, Event::ProofReady) => match mode {
            Mode::SingleParty => (Stage::Verifying, Action::Verify),
            Mode::MultiParty => (Stage::Revealing, Action::Reveal),
        },
        (Stage::Revealing, Event::ProofRevealed) => (Stage::Verifying, Action::Verify),
        (Stage::Revealing, Event::RevealFailed) => (
            Stage::Failed(Error::RevealFailed),
            Action::Abort(Error::RevealFailed),
        ),
        (Stage::Verifying, Event::Verdict { accepted }) => {
            if accepted {
                (Stage::Accepted, Action::Finish { accepted: true })
            } else {
                (Stage::Rejected, Action::Finish { accepted: false })
            }
        },
        (Stage::Accepted, _) => (Stage::Accepted, Action::Finish { accepted: true }),
        (Stage::Rejected, _) => (Stage::Rejected, Action::Finish { accepted: false }),
        (Stage::Failed(e), _) => (Stage::Failed(e), Action::Abort(e)),
        _ => (Stage::Failed(Error::UnexpectedEvent), Action::Abort(Error::UnexpectedEvent)),
    }
}

/// The stage that a session reaches from `stage` when it is told of the
/// events `events` in order.
pub open spec fn run(mode: Mode, gates: usize, stage: Stage, events: Seq<Event>) -> Stage
    decreases events.len(),
{
    if events.len() == 0 {
        stage
    } else {
        run(mode, gates, transition(mode, gates, stage, events[0]).0, events.drop_first())
    }
}

/// The events of a session in which all the outside work succeeds: the setup
/// holds `max_gates` gates, and the verifier's answer is `accepted`.
pub open spec fn script(mode: Mode, max_gates: usize, accepted: bool) -> Seq<Event> {
    match mode {
        Mode::SingleParty => seq![
            Event::Start,
            Event::SetupReady { max_gates },
            Event::KeysReady,
            Event::ProofReady,
            Event::Verdict { accepted },
        ],
        Mode::MultiParty => seq![
            Event::Start,
            Event::SetupReady { max_gates },
            Event::KeysReady,
            Event::KeyShared,
            Event::ProofReady,
            Event::ProofRevealed,
            Event::Verdict { accepted },
        ],
    }
}

/// A proving session for a circuit of a given number of gates.
#[derive(Clone, Copy, Debug, PartialEq, Eq, Structural)]
pub struct Session {
    /// The way of proving.
    pub mode: Mode,
    /// The number of gates of the padded circuit.
    pub gates: usize,
    /// How far the session has come.
    pub stage: Stage,
}

impl Session {
    /// Whether the session is at a stage that its way of proving has.
    pub open spec fn wf(&self) -> bool {
        fits(self.mode, self.stage)
    }

    /// A session in `mode` for a circuit of `gates` gates, with nothing asked
    /// for yet.
    pub fn new(mode: Mode, gates: usize) -> (s: Session)
        ensures
            s == (Session { mode, gates, stage: Stage::Created }),
            s.wf(),
    {
        Session { mode, gates, stage: Stage::Created }
    }

    /// A session in `mode` over the prover's circuit `prover`, of `gates`
    /// gates, to be verified against `verifier`. Where the two circuits
    /// differ in more than the witness, no proof over the one verifies
    /// against the other: the session is over before it begins, and its
    /// proof counts as rejected.
    pub fn for_circuits<V, W>(
        mode: Mode,
        verifier: &PlonkCircuit<V>,
        prover: &PlonkCircuit<W>,
        gates: usize,
    ) -> (s: Session)
        ensures
            s == (Session {
                mode,
                gates,
                stage: if verifier.shape() == prover.shape() {
                    Stage::Created
                } else {
                    Stage::Rejected
                },
            }),
            s.wf(),
    {
        if verifier.same_shape(prover) {
            Session { mode, gates, stage: Stage::Created }
        } else {
            Session { mode, gates, stage: Stage::Rejected }
        }
    }

    /// Takes in `event` and says what is to be done next. Mode and number of
    /// gates stay as they are.
    pub fn step(&mut self, event: Event) -> (action: Action)
        ensures
            final(self).mode == old(self).mode,
            final(self).gates == old(self).gates,
            (final(self).stage, action) == transition(
                old(self).mode,
                old(self).gates,
                old(self).stage,
                event,
            ),
            old(self).wf() ==> final(self).wf(),
    {
        let (stage, action) = match (self.stage, event) {
            (Stage::Created, Event::Start) => match next_power_of_two(self.gates) {
                Some(max_gates) => (Stage::SettingUp, Action::UniversalSetup { max_gates }),
                None => (Stage::Failed(Error::SetupTooSmall), Action::Abort(Error::SetupTooSmall)),
            },
            (Stage::SettingUp, Event::SetupReady { max_gates }) => {
                if max_gates >= self.gates {
                    (Stage::DerivingKeys, Action::CircuitSetup)
                } else {
                    (Stage::Failed(Error::SetupTooSmall), Action::Abort(Error::SetupTooSmall))
                }
            },
            (Stage::DerivingKeys, Event::KeysReady) => match self.mode {
                Mode::SingleParty => (Stage::Proving, Action::Prove),
                Mode::MultiParty => (Stage::SharingKey, Action::ShareProvingKey),
            },
            (Stage::SharingKey, Event::KeyShared) => (Stage::Proving, Action::Prove),
            (Stage::Proving, Event::ProofReady) => match self.mode {
                Mode::SingleParty => (Stage::Verifying, Action::Verify),
                Mode::MultiParty => (Stage::Revealing, Action::Reveal),
            },
            (Stage::Revealing, Event::ProofRevealed) => (Stage::Verifying, Action::Verify),
            (Stage::Revealing, Event::RevealFailed) => (
                Stage::Failed(Error::RevealFailed),
                Action::Abort(Error::RevealFailed),
            ),
            (Stage::Verifying, Event::Verdict { accepted }) => {
                if accepted {
                    (Stage::Accepted, Action::Finish { accepted: true })
                } else {
                    (Stage::Rejected, Action::Finish { accepted: false })
                }
            },
            (Stage::Accepted, _) => (Stage::Accepted, Action::Finish { accepted: true }),
            (Stage::Rejected, _) => (Stage::Rejected, Action::Finish { accepted: false }),
            (Stage::Failed(e), _) => (Stage::Failed(e), Action::Abort(e)),
            _ => (Stage::Failed(Error::UnexpectedEvent), Action::Abort(Error::UnexpectedEvent)),
        };
        self.stage = stage;
        action
    }

    /// How the session ended: whether the proof was accepted, or the failure;
    /// and nothing while the session is still under way.
    pub fn outcome(&self) -> (r: Option<Result<bool, Error>>)
        ensures
            r == match self.stage {
                Stage::Accepted => Some(Ok::<bool, Error>(true)),
                Stage::Rejected => Some(Ok::<bool, Error>(false)),
                Stage::Failed(e) => Some(Err::<bool, Error>(e)),
                _ => None::<Result<bool, Error>>,
            },
    {
        match self.stage {
            Stage::Accepted => Some(Ok(true)),
            Stage::Rejected => Some(Ok(false)),
            Stage::Failed(e) => Some(Err(e)),
            _ => None,
        }
    }
}

/// The setup that a session asks for holds the circuit, and its size is the
/// least power of two that does.
pub proof fn lemma_setup_holds_circuit(mode: Mode, gates: usize, stage: Stage, event: Event)
    requires
        transition(mode, gates, stage, event).1 is UniversalSetup,
    ensures
        stage == Stage::Created,
        event == Event::Start,
        transition(mode, gates, stage, event).1->max_gates == next_pow2(gates as nat),
        transition(mode, gates, stage, event).1->max_gates >= gates,
{
    lemma_next_pow2(gates as nat);
}

/// A step leaves a session at a stage that its way of proving has.
pub proof fn lemma_stage_fits_mode(mode: Mode, gates: usize, stage: Stage, event: Event)
    requires
        fits(mode, stage),
    ensures
        fits(mode, transition(mode, gates, stage, event).0),
{
}

/// Among several parties a proof is verified only once it has been opened:
/// the verification is asked for in answer to the opening and to nothing
/// else. For one party it is asked for in answer to the proof.
pub proof fn lemma_verify_follows_reveal(mode: Mode, gates: usize, stage: Stage, event: Event)
    requires
        fits(mode, stage),
        transition(mode, gates, stage, event).1 == Action::Verify,
    ensures
        mode == Mode::MultiParty ==> stage == Stage::Revealing && event == Event::ProofRevealed,
        mode == Mode::SingleParty ==> stage == Stage::Proving && event == Event::ProofReady,
{
}

/// A proof is opened only among several parties, and only once it is there;
/// nothing is opened before that.
pub proof fn lemma_reveal_follows_proof(mode: Mode, gates: usize, stage: Stage, event: Event)
    requires
        transition(mode, gates, stage, event).1 == Action::Reveal,
    ensures
        mode == Mode::MultiParty,
        stage == Stage::Proving,
        event == Event::ProofReady,
{
}

/// That a proof is rejected is a result and no failure: the session ends
/// rejected, and it ends failed on no verdict at all.
pub proof fn lemma_verdict_is_result(mode: Mode, gates: usize, accepted: bool)
    ensures
        transition(mode, gates, Stage::Verifying, Event::Verdict { accepted }) == (
            if accepted {
                Stage::Accepted
            } else {
                Stage::Rejected
            },
            Action::Finish { accepted },
        ),
{
}

/// Once a session has ended, whatever it is told leaves it as it is, and it
/// asks for nothing more.
pub proof fn lemma_final_stage_stays(mode: Mode, gates: usize, stage: Stage, event: Event)
    requires
        is_final(stage),
    ensures
        transition(mode, gates, stage, event).0 == stage,
        transition(mode, gates, stage, event).1 is Finish || transition(
            mode,
            gates,
            stage,
            event,
        ).1 is Abort,
{
}

/// A session in which all the outside work succeeds ends with the
/// verifier's answer, for one party and for several alike.
pub proof fn lemma_script_ends_with_verdict(
    mode: Mode,
    gates: usize,
    max_gates: usize,
    accepted: bool,
)
    requires
        next_pow2(gates as nat) <= usize::MAX,
        max_gates >= gates,
    ensures
        run(mode, gates, Stage::Created, script(mode, max_gates, accepted)) == if accepted {
            Stage::Accepted
        } else {
            Stage::Rejected
        },
{
    reveal_with_fuel(run, 8);
    let events = script(mode, max_gates, accepted);
    let e1 = events.drop_first();
    let e2 = e1.drop_first();
    let e3 = e2.drop_first();
    let e4 = e3.drop_first();
    let e5 = e4.drop_first();
    let e6 = e5.drop_first();
    let e7 = e6.drop_first();
    assert(events[0] == Event::Start);
    assert(e1[0] == (Event::SetupReady { max_gates }));
    assert(e2[0] == Event::KeysReady);
    match mode {
        Mode::SingleParty => {
            assert(e3[0] == Event::ProofReady);
            assert(e4[0] == (Event::Verdict { accepted }));
            assert(e5.len() == 0);
        },
        Mode::MultiParty => {
            assert(e3[0] == Event::KeyShared);
            assert(e4[0] == Event::ProofReady);
            assert(e5[0] == Event::ProofRevealed);
            assert(e6[0] == (Event::Verdict { accepted }));
            assert(e7.len() == 0);
        },
    }
}

} // verus!
