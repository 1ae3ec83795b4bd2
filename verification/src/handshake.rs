//! What holds of every session: the order of its phases, the order of what
//! it writes, and which key an event names.

use crate::command::{frame, SetupCommand};
use crate::config::Config;
use crate::connection::{line_text, ActionView, Outcome, Phase, Session, Step, NEWLINE};
use crate::event::{Event, Injection};
use crate::scanner::{ends_clean, lemma_resync, magic, scan, ScanState};
use vstd::prelude::*;

verus! {

/// The place of a phase in the course of a session.
pub open spec fn rank(phase: Phase) -> nat {
    match phase {
        Phase::Idle => 0,
        Phase::Handshaking => 1,
        Phase::ConfiguringDevice => 2,
        Phase::AwaitingSetupLog => 3,
        Phase::Streaming => 4,
        Phase::Failed => 5,
    }
}

/// `count` operations that succeeded and read nothing.
pub open spec fn successes(count: nat) -> Seq<Outcome> {
    Seq::new(count, |i: int| Outcome::Done)
}

/// The reads that delivered the bytes of `stream`, one each.
pub open spec fn reads(stream: Seq<u8>) -> Seq<Outcome> {
    Seq::new(stream.len(), |i: int| Outcome::Byte(stream[i]))
}

/// `count` times the same action.
pub open spec fn repeated(action: ActionView, count: nat) -> Seq<ActionView> {
    Seq::new(count, |i: int| action)
}

/// The writes of these frames, one each.
pub open spec fn writes(frames: Seq<Seq<u8>>) -> Seq<ActionView> {
    Seq::new(frames.len(), |i: int| ActionView::Write(frames[i]))
}

/// A session never goes back to an earlier phase, and a failed session stays
/// as it is: whatever the outcome, and whatever the setup log reads.
pub proof fn lemma_phase_forward(session: Session, outcome: Outcome, text: Seq<char>)
    ensures
        rank(session.next(outcome, text).0.phase()) >= rank(session.phase()),
        session.phase() is Failed ==> session.next(outcome, text) == (session, ActionView::Halt),
        outcome is Failed ==> session.next(outcome, text).0.phase() is Failed,
        session.next(outcome, text).1 is Halt <==> session.next(outcome, text).0.phase() is Failed,
{
}

/// Whatever happens to a session, it is never again in a phase that it has
/// left.
pub proof fn lemma_phase_never_returns(session: Session, outcomes: Seq<Outcome>)
    ensures
        rank(session.after(outcomes).phase()) >= rank(session.phase()),
    decreases outcomes.len(),
{
    if outcomes.len() > 0 {
        let before = session.after(outcomes.drop_last());
        lemma_phase_never_returns(session, outcomes.drop_last());
        lemma_phase_forward(before, outcomes.last(), line_text(before.line));
    }
}

/// The channel is read within its timeout only while the magic number is
/// looked for: `Read` is asked for in the handshake alone, and after
/// `Unblock` was asked for the session is past it.
pub proof fn lemma_timeout_regimes(session: Session, outcome: Outcome, text: Seq<char>)
    ensures
        session.next(outcome, text).1 is Read ==> session.next(outcome, text).0.phase()
            is Handshaking,
        session.next(outcome, text).1 is Unblock ==> rank(session.next(outcome, text).0.phase())
            >= rank(Phase::ConfiguringDevice),
{
}

/// Outcomes in two parts: the session takes the second part from where the
/// first left it.
pub proof fn lemma_after_concat(session: Session, first: Seq<Outcome>, second: Seq<Outcome>)
    ensures
        session.after(first + second) == session.after(first).after(second),
        session.answers(first + second) == session.answers(first) + session.after(first).answers(
            second,
        ),
    decreases second.len(),
{
    if second.len() == 0 {
        assert(first + second == first);
    } else {
        lemma_after_concat(session, first, second.drop_last());
        assert((first + second).drop_last() == first + second.drop_last());
    }
}

/// The step that a session is at when it has switched the channel and
/// `done` more operations succeeded, `keys` being the number of its keys.
pub open spec fn configuring_step(keys: nat, done: nat) -> Step {
    if done == 0 {
        Step::Unblock
    } else if done == 1 {
        Step::Debounce
    } else if done == 2 {
        Step::Smoothness
    } else if done < 3 + keys {
        Step::Key((done - 3) as usize)
    } else if done == 3 + keys {
        Step::Interrupts
    } else if done == 4 + keys {
        Step::Finish
    } else {
        Step::Log
    }
}

/// The configuration, step by step: once the channel is switched, the
/// session writes the frames of `setup_frames` in their order while every
/// write succeeds, and then reads the setup log.
pub proof fn lemma_configuration_upto(session: Session, done: nat)
    requires
        session.failure is None,
        session.step is Unblock,
        session.pins.len() <= usize::MAX,
        done <= session.pins.len() + 5,
    ensures
        session.after(successes(done)) == session.at(configuring_step(session.pins.len(), done)),
        session.answers(successes(done)) == writes(session.setup_frames()).push(
            ActionView::ReadExact,
        ).take(done as int),
    decreases done,
{
    let expected = writes(session.setup_frames()).push(ActionView::ReadExact);
    if done == 0 {
        assert(session.at(Step::Unblock) == session);
        assert(session.answers(successes(0)) == expected.take(0));
    } else {
        let before = (done - 1) as nat;
        lemma_configuration_upto(session, before);
        assert(successes(done).drop_last() == successes(before));
        assert(successes(done).last() == Outcome::Done);
        let keys = session.pins.len();
        let at = session.at(configuring_step(keys, before));
        let answer = at.next(Outcome::Done, line_text(at.line)).1;
        assert(at.next(Outcome::Done, line_text(at.line)).0 == session.at(
            configuring_step(keys, done),
        ));
        assert(answer == expected[before as int]);
        assert(expected.take(done as int) == expected.take(before as int).push(
            expected[before as int],
        ));
    }
}

/// The order of the configuration: once the channel is switched, and while
/// every write succeeds, the session writes exactly the frames of
/// `setup_frames`, in their order, and then starts to read the setup log.
pub proof fn lemma_configuration_order(session: Session)
    requires
        session.failure is None,
        session.step is Unblock,
        session.pins.len() <= usize::MAX,
    ensures
        session.after(successes(session.pins.len() + 5)) == session.at(Step::Log),
        session.answers(successes(session.pins.len() + 5)) == writes(session.setup_frames()).push(
            ActionView::ReadExact,
        ),
{
    let all = session.pins.len() + 5;
    lemma_configuration_upto(session, all);
    let expected = writes(session.setup_frames()).push(ActionView::ReadExact);
    assert(expected.take(all as int) == expected);
}

/// The search for the magic number: while no byte before the last of
/// `stream` completes the scan, the session feeds each byte to the scan and
/// asks for the next, until the scan is complete and it asks for the channel
/// to be switched.
pub proof fn lemma_session_resync(session: Session, stream: Seq<u8>)
    requires
        session.failure is None,
        session.step is Resync,
        session.scan == ScanState::start(),
        forall|n: int| 0 <= n < stream.len() ==> !(#[trigger] scan(stream.take(n))).complete(),
    ensures
        session.after(reads(stream)) == (Session {
            scan: scan(stream),
            step: if scan(stream).complete() {
                Step::Unblock
            } else {
                Step::Resync
            },
            ..session
        }),
        session.answers(reads(stream)) == if scan(stream).complete() {
            repeated(ActionView::Read, (stream.len() - 1) as nat).push(ActionView::Unblock)
        } else {
            repeated(ActionView::Read, stream.len())
        },
    decreases stream.len(),
{
    if stream.len() == 0 {
        assert(session.after(reads(stream)) == session);
        assert(session.answers(reads(stream)) == repeated(ActionView::Read, 0));
    } else {
        let before = stream.drop_last();
        assert forall|n: int| 0 <= n < before.len() implies !(#[trigger] scan(
            before.take(n),
        )).complete() by {
            assert(before.take(n) == stream.take(n));
        }
        lemma_session_resync(session, before);
        assert(before == stream.take(stream.len() - 1));
        assert(!scan(before).complete());
        assert(reads(stream).drop_last() == reads(before));
        assert(reads(stream).last() == Outcome::Byte(stream.last()));
        if scan(stream).complete() {
            assert(repeated(ActionView::Read, before.len()).push(ActionView::Unblock)
                == repeated(ActionView::Read, (stream.len() - 1) as nat).push(ActionView::Unblock));
        } else {
            assert(repeated(ActionView::Read, before.len()).push(ActionView::Read) == repeated(
                ActionView::Read,
                stream.len(),
            ));
        }
    }
}

/// The opening of a session: `Reset`, the magic number, and the first read
/// of the answer.
pub proof fn lemma_opening(session: Session)
    requires
        session.failure is None,
        session.step is Idle,
    ensures
        session.after(successes(3)) == session.at(Step::Resync),
        session.answers(successes(3)) == seq![
            ActionView::Write(frame(SetupCommand::Reset, seq![])),
            ActionView::Write(magic()),
            ActionView::Read,
        ],
{
    reveal_with_fuel(Session::after, 4);
    reveal_with_fuel(Session::answers, 4);
    assert(successes(3).drop_last() == successes(2));
    assert(successes(2).drop_last() == successes(1));
    assert(successes(1).drop_last() == successes(0));
}

/// The handshake from end to end. Let the device answer with `noise`, on
/// which a scan does not complete and of which no end is a beginning of the
/// magic number, and then with the magic number, and let every operation
/// succeed. Then the session writes `Reset` and the magic number, reads the
/// answer byte by byte up to the last byte of the magic number, counts every
/// byte of `noise` as garbage, switches the channel, writes the frames of
/// `setup_frames` in their order, and starts to read the setup log.
pub proof fn lemma_handshake(cfg: Config, noise: Seq<u8>)
    requires
        cfg.key_maps@.len() <= usize::MAX,
        !scan(noise).complete(),
        ends_clean(noise),
    ensures
        ({
            let session = Session::idle(cfg);
            let outcomes = successes(3) + reads(noise + magic()) + successes(
                session.pins.len() + 5,
            );
            &&& session.after(outcomes) == (Session {
                step: Step::Log,
                scan: ScanState { cursor: magic().len(), garbage: noise.len() },
                ..session
            })
            &&& session.answers(outcomes) == seq![
                ActionView::Write(frame(SetupCommand::Reset, seq![])),
                ActionView::Write(magic()),
            ] + repeated(ActionView::Read, noise.len() + magic().len()) + seq![ActionView::Unblock]
                + writes(session.setup_frames()) + seq![ActionView::ReadExact]
        }),
{
    let session = Session::idle(cfg);
    let stream = noise + magic();
    let opening = successes(3);
    let configuring = successes(session.pins.len() + 5);
    let sent = session.at(Step::Resync);
    let matched = sent.after(reads(stream));
    let frames = writes(session.setup_frames());

    lemma_opening(session);
    lemma_resync(noise);
    lemma_session_resync(sent, stream);
    lemma_after_concat(session, opening, reads(stream));
    assert(matched.setup_frames() == session.setup_frames());
    lemma_configuration_order(matched);
    lemma_after_concat(session, opening + reads(stream), configuring);

    let first = seq![
        ActionView::Write(frame(SetupCommand::Reset, seq![])),
        ActionView::Write(magic()),
        ActionView::Read,
    ];
    let second = repeated(ActionView::Read, (stream.len() - 1) as nat).push(ActionView::Unblock);
    let third = frames.push(ActionView::ReadExact);
    assert(session.answers(opening + reads(stream) + configuring) == first + second + third);
    lemma_answers_in_order(frames, stream.len());
}

/// The answers of a handshake, in one list.
proof fn lemma_answers_in_order(frames: Seq<ActionView>, count: nat)
    requires
        count >= 1,
    ensures
        seq![
            ActionView::Write(frame(SetupCommand::Reset, seq![])),
            ActionView::Write(magic()),
            ActionView::Read,
        ] + repeated(ActionView::Read, (count - 1) as nat).push(ActionView::Unblock) + frames.push(
            ActionView::ReadExact,
        ) == seq![
            ActionView::Write(frame(SetupCommand::Reset, seq![])),
            ActionView::Write(magic()),
        ] + repeated(ActionView::Read, count) + seq![ActionView::Unblock] + frames
            + seq![ActionView::ReadExact],
{
}

/// The end of the setup log: a line without a byte ends it, whatever text
/// the lines before it read. The session switches the channel once more and
/// then serves events.
pub proof fn lemma_empty_line_ends_log(session: Session)
    requires
        session.failure is None,
        session.step is Log,
        session.line.len() == 0,
    ensures
        session.after(seq![Outcome::Byte(NEWLINE), Outcome::Done]) == session.at(Step::Streaming),
        session.answers(seq![Outcome::Byte(NEWLINE), Outcome::Done]) == seq![
            ActionView::Unblock,
            ActionView::Serve,
        ],
        session.at(Step::Streaming).phase() is Streaming,
{
    let outcomes = seq![Outcome::Byte(NEWLINE), Outcome::Done];
    reveal_with_fuel(Session::after, 3);
    reveal_with_fuel(Session::answers, 3);
    assert(outcomes.drop_last() == seq![Outcome::Byte(NEWLINE)]);
    assert(seq![Outcome::Byte(NEWLINE)].drop_last() == Seq::<Outcome>::empty());
    assert(session.at(Step::Settle) == (Session {
        step: Step::Settle,
        line: Seq::empty(),
        ..session
    }));
}

/// Which key an event names. The frames are written in the order of the
/// configuration, the device counts the `AddKey` frames as it receives them,
/// and an event is looked up at the place it names: so the key with index
/// `index` is announced by the `AddKey` frame with `index` others before it,
/// and an event with that index stands for the keycodes of that key.
pub proof fn lemma_index_binding(cfg: Config, index: u8)
    requires
        index < cfg.key_maps@.len(),
        index < 128,
    ensures
        ({
            let frames = Session::idle(cfg).setup_frames();
            let key = cfg.key_maps@[index as int];
            &&& frames.len() == cfg.key_maps@.len() + 4
            &&& forall|at: int|
                0 <= at < frames.len() ==> (#[trigger] frames[at][0] == SetupCommand::AddKey.opcode()
                    <==> 2 <= at < 2 + cfg.key_maps@.len())
            &&& frames[2 + index] == frame(SetupCommand::AddKey, seq![key.pin])
            &&& Event::decode((128 + index) as u8) == Event::KeyDown(index)
            &&& Event::decode(index) == Event::KeyUp(index)
            &&& Event::KeyDown(index).injections(cfg.key_maps@) == key.keycodes@.map_values(
                |code: u16| Injection::Down(code),
            )
            &&& Event::KeyUp(index).injections(cfg.key_maps@) == key.keycodes@.map_values(
                |code: u16| Injection::Up(code),
            )
        }),
{
}

} // verus!
