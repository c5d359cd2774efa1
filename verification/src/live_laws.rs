//! What a streaming session makes of what happens to it.
use vstd::prelude::*;
use crate::gemini_live::{
    LiveEvent, LiveEventView, Opening, OpeningEvent, Outbound, SessionStep, SessionStepView, TailOutcome,
    WireMessage,
};
use crate::json::{Json, JsonTree};
use crate::request_laws::{at2, at3};

verus! {

/// The text that a server message carries under a name, where that is not empty.
pub open spec fn spoken_under(message: JsonTree, name: Seq<char>) -> Option<Seq<char>> {
    match at3(message, "serverContent"@, name, "text"@) {
        Some(JsonTree::Text(s)) => if s.len() > 0 {
            Some(s)
        } else {
            None
        },
        _ => None,
    }
}

/// A server message reports the hypothesis that it carries, then the finished chunk, and nothing
/// else; neither of them is mistaken for the other.
pub proof fn law_what_a_message_reports(message: JsonTree)
    ensures
        ({
            let events = crate::gemini_live::message_events(message);
            let interim = spoken_under(message, "interimInputTranscription"@);
            let finished = spoken_under(message, "inputTranscription"@);
            &&& interim is None && finished is None ==> events.len() == 0
            &&& interim is Some && finished is None ==> events == seq![
                LiveEventView::Interim(interim->0),
            ]
            &&& interim is None && finished is Some ==> events == seq![
                LiveEventView::Final(finished->0),
            ]
            &&& interim is Some && finished is Some ==> events == seq![
                LiveEventView::Interim(interim->0),
                LiveEventView::Final(finished->0),
            ]
        }),
{
    let events = crate::gemini_live::message_events(message);
    let interim = spoken_under(message, "interimInputTranscription"@);
    let finished = spoken_under(message, "inputTranscription"@);
    if message.member("serverContent"@) is Some {
        let content = message.member("serverContent"@)->0;
        assert(crate::gemini_live::transcription(content, "interimInputTranscription"@) == interim);
        assert(crate::gemini_live::transcription(content, "inputTranscription"@) == finished);
    }
    if interim is Some && finished is None {
        assert(events =~= seq![LiveEventView::Interim(interim->0)]);
    }
    if interim is None && finished is Some {
        assert(events =~= seq![LiveEventView::Final(finished->0)]);
    }
    if interim is Some && finished is Some {
        assert(events =~= seq![
            LiveEventView::Interim(interim->0),
            LiveEventView::Final(finished->0),
        ]);
    }
}

/// A turn is over when the server says that it is complete, or that a generation is and the audio
/// has ended. Nothing else ends it.
pub proof fn law_when_a_turn_is_over(message: JsonTree, ended: bool)
    ensures
        crate::gemini_live::message_done(message, ended) <==> {
            ||| at2(message, "serverContent"@, "turnComplete"@) == Some(JsonTree::Bool(true))
            ||| ended && at2(message, "serverContent"@, "generationComplete"@) == Some(
                JsonTree::Bool(true),
            )
        },
{
}

/// What comes off the socket: a readable message reports what it says, and closes the session
/// cleanly after that where the turn is over; an unreadable one says nothing; an error closes the
/// session with its reason, and a closed socket closes it cleanly.
pub proof fn law_what_comes_off_the_socket(
    ended: bool,
    inbound: Option<Result<WireMessage, String>>,
)
    ensures
        ({
            let step = crate::gemini_live::inbound_step(ended, inbound);
            match inbound {
                Some(Ok(msg)) => match crate::json::parsed_json(crate::gemini_live::wire_text(msg)) {
                    Ok(message) => {
                        let events = crate::gemini_live::message_events(message);
                        let over = crate::gemini_live::message_done(message, ended);
                        &&& !over ==> step == SessionStepView::Emit(events)
                        &&& over ==> (step matches SessionStepView::Finish(all) && all.len()
                            == events.len() + 1 && all.drop_last() == events && all.last()
                            == LiveEventView::Closed(Ok(())))
                    },
                    Err(_) => step matches SessionStepView::Emit(events) && events.len() == 0,
                },
                Some(Err(why)) => step matches SessionStepView::Finish(events) && events.len() == 1
                    && (events[0] matches LiveEventView::Closed(Err(told)) && told
                    == "Gemini Live socket error: "@ + why@),
                None => step matches SessionStepView::Finish(events) && events == seq![
                    LiveEventView::Closed(Ok(())),
                ],
            }
        }),
{
    if let Some(Ok(msg)) = inbound {
        if let Ok(message) = crate::json::parsed_json(crate::gemini_live::wire_text(msg)) {
            let events = crate::gemini_live::message_events(message);
            assert(events.push(LiveEventView::Closed(Ok(()))).drop_last() =~= events);
        }
    }
}

/// A text message carries its text; one that carries no reply carries nothing.
pub proof fn law_what_a_message_carries(msg: WireMessage)
    ensures
        msg matches WireMessage::Text(text) ==> crate::gemini_live::wire_text(msg) == text@,
        msg matches WireMessage::Binary(bytes) ==> crate::gemini_live::wire_text(msg)
            == crate::gemini_live::lossy_text(bytes@),
        msg is Other ==> crate::gemini_live::wire_text(msg).len() == 0,
{
}

/// Audio is written as it comes until the end, which is written once; after that nothing is. A
/// caller who has gone ends the session.
pub proof fn law_what_the_caller_hands_over(pcm: Vec<u8>)
    ensures
        crate::gemini_live::outbound_step(false, Some(Outbound::Audio(pcm)))
            == SessionStepView::Write(crate::gemini_live::audio_tree(pcm@)),
        crate::gemini_live::outbound_step(false, Some(Outbound::End)) == SessionStepView::Write(
            crate::gemini_live::end_tree(),
        ),
        crate::gemini_live::outbound_step(true, Some(Outbound::Audio(pcm))) is Wait,
        crate::gemini_live::outbound_step(true, Some(Outbound::End)) is Wait,
        crate::gemini_live::outbound_step(false, None) is Stop,
        crate::gemini_live::outbound_step(true, None) is Stop,
{
}

/// When everything goes well a session is opened: connected, it writes the setup; written, it waits
/// for the reply; accepted, it opens the turn; and then it takes audio.
pub proof fn law_a_session_opens_when_all_goes_well(setup: Json, reply: WireMessage)
    requires
        crate::json::parsed_json(crate::gemini_live::wire_text(reply)) matches Ok(tree)
            && tree.member("setupComplete"@) is Some,
    ensures
        ({
            let connected = OpeningEvent::Connected(Ok(()));
            let written = OpeningEvent::Written(Ok(()));
            let accepted = OpeningEvent::Received(Some(Ok(reply)));
            let first = Opening::Connecting { setup };
            let second = crate::gemini_live::opening_after(first, connected);
            let third = crate::gemini_live::opening_after(second, written);
            let fourth = crate::gemini_live::opening_after(third, accepted);
            &&& crate::gemini_live::opening_step(first, connected) == SessionStepView::Write(
                setup.tree(),
            )
            &&& crate::gemini_live::opening_step(second, written) is Wait
            &&& crate::gemini_live::opening_step(third, accepted) == SessionStepView::Write(
                crate::gemini_live::start_tree(),
            )
            &&& crate::gemini_live::opening_step(fourth, written) is Ready
            &&& crate::gemini_live::opening_after(fourth, written) is Open
        }),
{
}

/// Whatever goes wrong while a session is being opened fails it, with the reason in the report: a
/// socket that does not connect, a message that is not written, a reply that does not come, cannot
/// be read or does not accept.
pub proof fn law_whatever_goes_wrong_fails_the_opening(
    setup: Json,
    why: String,
    reply: Option<Result<WireMessage, String>>,
)
    ensures
        ({
            let connecting = Opening::Connecting { setup };
            let refused = OpeningEvent::Connected(Err(why));
            let unwritten = OpeningEvent::Written(Err(why));
            let received = OpeningEvent::Received(reply);
            let accepted = reply matches Some(Ok(msg)) && (crate::json::parsed_json(
                crate::gemini_live::wire_text(msg),
            ) matches Ok(tree) && tree.member("setupComplete"@) is Some);
            &&& crate::gemini_live::opening_step(connecting, refused) == SessionStepView::Fail(
                "Gemini Live connection failed: "@ + why@,
            )
            &&& crate::gemini_live::opening_step(Opening::SendingSetup, unwritten)
                == SessionStepView::Fail("Gemini Live setup send failed: "@ + why@)
            &&& crate::gemini_live::opening_step(Opening::OpeningTurn, unwritten)
                == SessionStepView::Fail("Gemini Live: could not open the turn: "@ + why@)
            &&& !accepted ==> crate::gemini_live::opening_step(
                Opening::AwaitingReply,
                received,
            ) is Fail
            &&& reply is None ==> crate::gemini_live::opening_step(Opening::AwaitingReply, received)
                == SessionStepView::Fail("Gemini Live closed before setup completed"@)
            &&& reply matches Some(Err(told)) ==> crate::gemini_live::opening_step(
                Opening::AwaitingReply,
                received,
            ) == SessionStepView::Fail("Gemini Live setup failed: "@ + told@)
            &&& reply matches Some(Ok(msg)) ==> crate::json::parsed_json(
                crate::gemini_live::wire_text(msg),
            ) matches Err(told) ==> crate::gemini_live::opening_step(
                Opening::AwaitingReply,
                received,
            ) == SessionStepView::Fail("Gemini Live setup reply unreadable: "@ + told)
            &&& crate::gemini_live::opening_after(connecting, refused) is Failed
            &&& crate::gemini_live::opening_after(Opening::SendingSetup, unwritten) is Failed
            &&& crate::gemini_live::opening_after(Opening::OpeningTurn, unwritten) is Failed
            &&& !accepted ==> crate::gemini_live::opening_after(
                Opening::AwaitingReply,
                received,
            ) is Failed
        }),
{
}

/// An event that is not awaited changes nothing, and once a session is open or has failed every
/// event is such a one.
pub proof fn law_what_is_not_awaited_changes_nothing(opening: Opening, event: OpeningEvent)
    requires
        match opening {
            Opening::Connecting { .. } => event !is Connected,
            Opening::SendingSetup => event !is Written,
            Opening::AwaitingReply => event !is Received,
            Opening::OpeningTurn => event !is Written,
            _ => true,
        },
    ensures
        crate::gemini_live::opening_step(opening, event) is Wait,
        crate::gemini_live::opening_after(opening, event) == opening,
{
}

/// A chunk joins the transcript without the white space around it, where anything is left of it,
/// and chunks stay in order.
pub proof fn law_chunks_stay_in_order(
    before: Seq<Seq<char>>,
    after: Seq<Seq<char>>,
    chunk: Seq<char>,
)
    ensures
        crate::gemini_live::spoken(Seq::<Seq<char>>::empty()).len() == 0,
        crate::gemini_live::spoken(seq![chunk]) == if crate::text::trimmed(chunk).len() > 0 {
            seq![crate::text::trimmed(chunk)]
        } else {
            Seq::empty()
        },
        crate::gemini_live::spoken(before + after) == crate::gemini_live::spoken(before)
            + crate::gemini_live::spoken(after),
    decreases after.len(),
{
    let none = Seq::<Seq<char>>::empty();
    assert(crate::gemini_live::spoken(none).len() == 0);
    assert(seq![chunk].drop_last() =~= none);
    assert(crate::gemini_live::spoken(none) =~= none);
    assert(crate::gemini_live::spoken(seq![chunk]) =~= if crate::text::trimmed(chunk).len() > 0 {
        seq![crate::text::trimmed(chunk)]
    } else {
        none
    });
    let all = before + after;
    if after.len() == 0 {
        assert(all =~= before);
        assert(crate::gemini_live::spoken(after) =~= none);
        assert(crate::gemini_live::spoken(before) + crate::gemini_live::spoken(after)
            =~= crate::gemini_live::spoken(before));
    } else {
        law_chunks_stay_in_order(before, after.drop_last(), chunk);
        assert(all.drop_last() =~= before + after.drop_last());
        assert(all.last() == after.last());
        assert(crate::gemini_live::spoken(all) =~= crate::gemini_live::spoken(before)
            + crate::gemini_live::spoken(after));
    }
}

/// The first wait is eight tenths of a second and forty milliseconds for each second of audio, and
/// six seconds where that would be more.
pub proof fn law_how_long_the_first_wait_is(seconds: int)
    requires
        0 <= seconds,
    ensures
        crate::gemini_live::first_wait(16_000 * seconds) == if 800_000_000 + 40_000_000 * seconds
            < 6_000_000_000 {
            800_000_000 + 40_000_000 * seconds
        } else {
            6_000_000_000
        },
{
}

/// The texts of the finished chunks among some outcomes, in order.
pub open spec fn finished(outcomes: Seq<TailOutcome>) -> Seq<String>
    decreases outcomes.len(),
{
    if outcomes.len() == 0 {
        Seq::empty()
    } else {
        match outcomes[0] {
            TailOutcome::Event(LiveEvent::Final(text)) => seq![text] + finished(
                outcomes.drop_first(),
            ),
            _ => finished(outcomes.drop_first()),
        }
    }
}

/// Whether an outcome is a chunk or a hypothesis.
pub open spec fn goes_on(outcome: TailOutcome) -> bool {
    outcome matches TailOutcome::Event(event) && (event is Final || event is Interim)
}

/// The rest of a transcript is every finished chunk that comes before the session closes, falls
/// silent or goes, in order and behind what was there. Hypotheses leave no trace and end nothing,
/// and what comes after the end does not count.
pub proof fn law_the_rest_is_every_finished_chunk(
    before: Seq<String>,
    run: Seq<TailOutcome>,
    end: TailOutcome,
    late: Seq<TailOutcome>,
)
    requires
        forall|i: int|
            0 <= i < run.len() ==> goes_on(#[trigger] run[i]),
        match end {
            TailOutcome::Event(event) => event is Closed,
            _ => true,
        },
    ensures
        crate::gemini_live::collected(before, run + seq![end] + late) == before + finished(run),
    decreases run.len(),
{
    let all = run + seq![end] + late;
    if run.len() == 0 {
        assert(all[0] == end);
        assert(finished(run) =~= Seq::empty());
        assert(before + finished(run) =~= before);
    } else {
        let rest = run.drop_first();
        assert(all[0] == run[0]);
        assert(all.drop_first() =~= rest + seq![end] + late);
        assert forall|i: int| 0 <= i < rest.len() implies goes_on(#[trigger] rest[i]) by {
            assert(rest[i] == run[i + 1]);
        }
        assert(goes_on(run[0]));
        match run[0] {
            TailOutcome::Event(LiveEvent::Final(text)) => {
                law_the_rest_is_every_finished_chunk(before.push(text), rest, end, late);
                assert(before.push(text) + finished(rest) =~= before + finished(run));
            },
            _ => {
                law_the_rest_is_every_finished_chunk(before, rest, end, late);
            },
        }
    }
}

/// What one wait brings: a finished chunk is added and more may come; a hypothesis adds nothing and
/// more may come; anything else adds nothing and is the end.
pub proof fn law_what_a_wait_brings(chunks: Seq<String>, outcome: TailOutcome)
    ensures
        ({
            let after = crate::gemini_live::chunks_with(chunks, outcome);
            let over = crate::gemini_live::ends_the_tail(outcome);
            match outcome {
                TailOutcome::Event(LiveEvent::Final(text)) => after == chunks.push(text) && !over,
                TailOutcome::Event(LiveEvent::Interim(_)) => after == chunks && !over,
                TailOutcome::Event(LiveEvent::Closed(_)) => after == chunks && over,
                TailOutcome::TimedOut => after == chunks && over,
                TailOutcome::Disconnected => after == chunks && over,
            }
        }),
{
}

/// A reply accepts the setup if it says that the setup is complete, and then the turn is opened.
/// Anything else is a rejection, which is shown up to three hundred bytes.
pub proof fn law_which_replies_accept(reply: JsonTree, shown: Seq<char>)
    ensures
        reply.member("setupComplete"@) is Some ==> crate::gemini_live::setup_verdict(reply, shown)
            == SessionStepView::Write(crate::gemini_live::start_tree()),
        reply.member("setupComplete"@) is None ==> crate::gemini_live::setup_verdict(reply, shown)
            == SessionStepView::Fail(
            "Gemini Live rejected the session setup: "@ + crate::text::shortened(shown, 300),
        ),
{
}

/// A session lasts a quarter of an hour at most, has twenty seconds to be accepted, and waits ten
/// seconds for the server once the audio has ended; after a chunk it waits six tenths of a second
/// for the next.
pub proof fn law_how_long_a_session_waits()
    ensures
        crate::gemini_live::SESSION_DEADLINE == 15 * 60 * 1_000_000_000,
        crate::gemini_live::SETUP_WAIT == 20 * 1_000_000_000,
        crate::gemini_live::FINAL_WAIT == 10 * 1_000_000_000,
        crate::gemini_live::IDLE_AFTER_FINAL == 600 * 1_000_000,
{
}

/// The transcript of two runs of chunks is that of the one, a space, and that of the other, where
/// both say something; a run that says nothing leaves no trace; and a single chunk is its text
/// without the white space around it.
pub proof fn law_a_space_goes_between_chunks(
    before: Seq<Seq<char>>,
    after: Seq<Seq<char>>,
    chunk: Seq<char>,
)
    ensures
        ({
            let first = crate::gemini_live::transcript_of_chunks(before);
            let second = crate::gemini_live::transcript_of_chunks(after);
            let whole = crate::gemini_live::transcript_of_chunks(before + after);
            let says = |chunks: Seq<Seq<char>>|
                exists|i: int|
                    0 <= i < chunks.len() && crate::text::trimmed(#[trigger] chunks[i]).len() > 0;
            &&& says(before) && says(after) ==> whole == first + " "@ + second
            &&& !says(before) ==> whole == second
            &&& !says(after) ==> whole == first
        }),
        crate::gemini_live::transcript_of_chunks(seq![chunk]) == crate::text::trimmed(chunk),
{
    law_chunks_stay_in_order(before, after, chunk);
    lemma_says_something(before);
    lemma_says_something(after);
    let x = crate::gemini_live::spoken(before);
    let y = crate::gemini_live::spoken(after);
    crate::text::law_joining_puts_the_separator_between(
        x,
        y,
        crate::text::trimmed(chunk),
        " "@,
    );
    if x.len() == 0 {
        assert(x + y =~= y);
    }
    if y.len() == 0 {
        assert(x + y =~= x);
    }
    if crate::text::trimmed(chunk).len() == 0 {
        assert(crate::text::trimmed(chunk) =~= Seq::empty());
    }
}

proof fn lemma_says_something(chunks: Seq<Seq<char>>)
    ensures
        crate::gemini_live::spoken(chunks).len() > 0 <==> exists|i: int|
            0 <= i < chunks.len() && crate::text::trimmed(#[trigger] chunks[i]).len() > 0,
    decreases chunks.len(),
{
    if chunks.len() > 0 {
        let rest = chunks.drop_last();
        lemma_says_something(rest);
        if crate::gemini_live::spoken(rest).len() > 0 {
            let i = choose|i: int|
                0 <= i < rest.len() && crate::text::trimmed(#[trigger] rest[i]).len() > 0;
            assert(chunks[i] == rest[i]);
        }
        if crate::text::trimmed(chunks.last()).len() > 0 {
            assert(crate::text::trimmed(chunks[chunks.len() - 1]).len() > 0);
        }
        if exists|i: int|
            0 <= i < chunks.len() && crate::text::trimmed(#[trigger] chunks[i]).len() > 0 {
            let i = choose|i: int|
                0 <= i < chunks.len() && crate::text::trimmed(#[trigger] chunks[i]).len() > 0;
            if i < rest.len() {
                assert(rest[i] == chunks[i]);
            }
        }
    }
}

/// An event is told as what it is: a hypothesis as one, a finished chunk as one, and an end as one,
/// clean or with its reason.
pub proof fn law_events_are_told_as_what_they_are(text: String, events: Seq<LiveEvent>, i: int)
    ensures
        LiveEvent::Interim(text)@ == LiveEventView::Interim(text@),
        LiveEvent::Final(text)@ == LiveEventView::Final(text@),
        LiveEvent::Closed(Ok(()))@ == LiveEventView::Closed(Ok(())),
        LiveEvent::Closed(Err(text))@ == LiveEventView::Closed(Err(text@)),
        crate::gemini_live::event_views(events).len() == events.len(),
        0 <= i < events.len() ==> crate::gemini_live::event_views(events)[i] == events[i]@,
{
}

/// A step is told as what it is.
pub proof fn law_steps_are_told_as_what_they_are(
    message: Json,
    why: String,
    events: Vec<LiveEvent>,
)
    ensures
        SessionStep::Wait@ is Wait,
        SessionStep::Write(message)@ == SessionStepView::Write(message.tree()),
        SessionStep::Ready@ is Ready,
        SessionStep::Fail(why)@ == SessionStepView::Fail(why@),
        SessionStep::Emit(events)@ == SessionStepView::Emit(
            crate::gemini_live::event_views(events@),
        ),
        SessionStep::Finish(events)@ == SessionStepView::Finish(
            crate::gemini_live::event_views(events@),
        ),
        SessionStep::Stop@ is Stop,
{
}

} // verus!
