//! What holds of a session over a whole run of lines.

use crate::call::Verdict;
use crate::error::ErrorView;
use crate::json::{parsed, JsonView};
use crate::protocol::{
    framed, in_words, law_response_is_under_the_id, parse_error_view, reports_parse_error,
    responds_with, response_view, tools_view,
};
use crate::session::{ending, method_of, next, quietly, ActionView, Event, SessionView};
use crate::session_laws::{
    answers, law_cache_is_kept, law_known_list_is_answered, law_line_without_message,
    law_message_with_id, law_message_without_id, law_notification_is_not_answered,
    law_reply_carries_the_id, listing_in_progress,
};
use crate::text::blank;
use vstd::prelude::*;

verus! {

/// A line that was read, with the answers to everything that the session asked for on its
/// account, in order.
pub struct Turn {
    pub line: String,
    /// What the platform makes of the path of a file to upload, where the line asks for one.
    pub verdict: Verdict,
    pub answers: Seq<Event>,
}

/// What an action writes: the line of a reply, and nothing for any other.
pub open spec fn written(action: ActionView) -> Seq<Seq<char>> {
    match action {
        ActionView::Reply(line) => seq![line],
        _ => Seq::empty(),
    }
}

/// The session after these events, and what was written meanwhile.
pub open spec fn after_events(s: SessionView, events: Seq<Event>, verdict: Verdict) -> (
    SessionView,
    Seq<Seq<char>>,
)
    decreases events.len(),
{
    if events.len() == 0 {
        (s, Seq::empty())
    } else {
        let (s1, step) = next(s, events[0], verdict);
        let (s2, rest) = after_events(s1, events.skip(1), verdict);
        (s2, written(step.action) + rest)
    }
}

/// The session after a turn, and what was written meanwhile.
pub open spec fn after_turn(s: SessionView, turn: Turn) -> (SessionView, Seq<Seq<char>>) {
    after_events(s, seq![Event::Line(turn.line)] + turn.answers, turn.verdict)
}

/// The session after a run of turns, and what was written meanwhile.
pub open spec fn after_run(s: SessionView, turns: Seq<Turn>) -> (SessionView, Seq<Seq<char>>)
    decreases turns.len(),
{
    if turns.len() == 0 {
        (s, Seq::empty())
    } else {
        let (s1, before) = after_run(s, turns.drop_last());
        let (s2, last) = after_turn(s1, turns.last());
        (s2, before + last)
    }
}

/// Each event answers what the session waits for, and after the last it waits for nothing.
pub open spec fn all_answered(s: SessionView, events: Seq<Event>, verdict: Verdict) -> bool
    decreases events.len(),
{
    match s.pending {
        None => events.len() == 0,
        Some(p) => events.len() > 0 && answers(p.work, events[0]) && all_answered(
            next(s, events[0], verdict).0,
            events.skip(1),
            verdict,
        ),
    }
}

/// Every turn begins when the last is over, and has all its answers.
pub open spec fn served(s: SessionView, turns: Seq<Turn>) -> bool
    decreases turns.len(),
{
    turns.len() > 0 ==> {
        let s1 = after_run(s, turns.drop_last()).0;
        let turn = turns.last();
        &&& served(s, turns.drop_last())
        &&& all_answered(
            next(s1, Event::Line(turn.line), turn.verdict).0,
            turn.answers,
            turn.verdict,
        )
    }
}

/// A line is owed a reply where it is not blank and either is not JSON or holds an id.
pub open spec fn owed_reply(line: Seq<char>) -> bool {
    !blank(line) && match parsed(line) {
        None => true,
        Some(message) => message.get("id"@) is Some,
    }
}

/// The lines of these turns that are owed a reply, in order.
pub open spec fn owed(turns: Seq<Turn>) -> Seq<Seq<char>>
    decreases turns.len(),
{
    if turns.len() == 0 {
        Seq::empty()
    } else if owed_reply(turns.last().line@) {
        owed(turns.drop_last()).push(turns.last().line@)
    } else {
        owed(turns.drop_last())
    }
}

/// What is written is a reply to the line: a parse error where the line is not JSON, and a
/// response with the id of its message where it is; in either case JSON text and a line feed.
pub open spec fn replies_to(line: Seq<char>, reply: Seq<char>) -> bool {
    match parsed(line) {
        None => reply == framed(parse_error_view()) && reports_parse_error(reply),
        Some(message) => {
            &&& exists|result: Result<JsonView, ErrorView>|
                reply == framed(#[trigger] response_view(message.get("id"@)->0, result))
            &&& exists|result: Result<JsonView, Seq<char>>| #[trigger]
                responds_with(reply, message.get("id"@)->0, result)
        },
    }
}

/// The turns whose lines are not blank, in order.
pub open spec fn spoken(turns: Seq<Turn>) -> Seq<Turn>
    decreases turns.len(),
{
    if turns.len() == 0 {
        Seq::empty()
    } else if blank(turns.last().line@) {
        spoken(turns.drop_last())
    } else {
        spoken(turns.drop_last()).push(turns.last())
    }
}

/// A request in progress under an id, once it has all its answers, has been replied to once,
/// under that id; a notification has not been replied to.
proof fn lemma_request_ends(s: SessionView, events: Seq<Event>, verdict: Verdict)
    requires
        s.pending is Some,
        all_answered(s, events, verdict),
    ensures
        after_events(s, events, verdict).0.pending is None,
        match s.pending->0.id {
            None => after_events(s, events, verdict).1 == Seq::<Seq<char>>::empty(),
            Some(id) => exists|result: Result<JsonView, ErrorView>|
                after_events(s, events, verdict).1 == seq![
                    framed(#[trigger] response_view(id, result)),
                ] && responds_with(
                    framed(response_view(id, result)),
                    id,
                    in_words(result),
                ),
        },
    decreases events.len(),
{
    let (s1, step) = next(s, events[0], verdict);
    let rest = events.skip(1);
    let (s2, more) = after_events(s1, rest, verdict);
    assert(all_answered(s1, rest, verdict));
    match s.pending->0.id {
        None => {
            law_notification_is_not_answered(s, events[0], verdict);
        },
        Some(id) => {
            law_reply_carries_the_id(s, events[0], verdict, id);
            if let ActionView::Reply(line) = step.action {
                let result = choose|result: Result<JsonView, ErrorView>|
                    line == framed(#[trigger] response_view(id, result));
                law_response_is_under_the_id(id, result);
            }
        },
    }
    if s1.pending is Some {
        lemma_request_ends(s1, rest, verdict);
        assert(written(step.action) + more =~= more);
    } else {
        assert(written(step.action) + more =~= written(step.action));
    }
}

/// A turn with all its answers leaves nothing in progress, and writes one reply where its line is
/// owed one, and nothing otherwise.
proof fn lemma_turn(s: SessionView, turn: Turn)
    requires
        s.pending is None,
        all_answered(
            next(s, Event::Line(turn.line), turn.verdict).0,
            turn.answers,
            turn.verdict,
        ),
    ensures
        after_turn(s, turn).0.pending is None,
        owed_reply(turn.line@) ==> after_turn(s, turn).1.len() == 1 && replies_to(
            turn.line@,
            after_turn(s, turn).1[0],
        ),
        !owed_reply(turn.line@) ==> after_turn(s, turn).1.len() == 0,
        blank(turn.line@) ==> after_turn(s, turn) == (s, Seq::<Seq<char>>::empty()),
{
    let events = seq![Event::Line(turn.line)] + turn.answers;
    let (s1, step) = next(s, events[0], turn.verdict);
    assert(events.skip(1) =~= turn.answers);
    let (s2, more) = after_events(s1, turn.answers, turn.verdict);
    assert(after_turn(s, turn) == (s2, written(step.action) + more));
    if blank(turn.line@) || parsed(turn.line@) is None {
        law_line_without_message(s, turn.line, turn.verdict);
        assert(written(step.action) + more =~= written(step.action));
    } else {
        let message = parsed(turn.line@)->0;
        match message.get("id"@) {
            None => {
                law_message_without_id(s, message, turn.verdict);
            },
            Some(id) => {
                law_message_with_id(s, message, turn.verdict, id);
            },
        }
        if s1.pending is Some {
            lemma_request_ends(s1, turn.answers, turn.verdict);
            assert(written(step.action) + more =~= more);
        } else {
            assert(written(step.action) + more =~= written(step.action));
        }
    }
}

proof fn lemma_idle_after_run(s: SessionView, turns: Seq<Turn>)
    requires
        s.pending is None,
        served(s, turns),
    ensures
        after_run(s, turns).0.pending is None,
    decreases turns.len(),
{
    if turns.len() > 0 {
        lemma_idle_after_run(s, turns.drop_last());
        lemma_turn(after_run(s, turns.drop_last()).0, turns.last());
    }
}

/// Over a run of lines with every answer given, the replies match, one to one and in order, the
/// lines that are owed one: those that are not blank and either are not JSON or hold an id. No
/// other line gives output, and nothing is left in progress.
pub proof fn law_replies_match_the_lines(s: SessionView, turns: Seq<Turn>)
    requires
        s.pending is None,
        served(s, turns),
    ensures
        after_run(s, turns).0.pending is None,
        after_run(s, turns).1.len() == owed(turns).len(),
        forall|k: int|
            0 <= k < owed(turns).len() ==> replies_to(
                #[trigger] owed(turns)[k],
                after_run(s, turns).1[k],
            ),
    decreases turns.len(),
{
    if turns.len() > 0 {
        let front = turns.drop_last();
        let (s1, before) = after_run(s, front);
        law_replies_match_the_lines(s, front);
        lemma_turn(s1, turns.last());
        let last = after_turn(s1, turns.last()).1;
        assert(after_run(s, turns).1 == before + last);
        assert forall|k: int| 0 <= k < owed(turns).len() implies replies_to(
            #[trigger] owed(turns)[k],
            after_run(s, turns).1[k],
        ) by {
            if k < owed(front).len() {
                assert(owed(turns)[k] == owed(front)[k]);
                assert((before + last)[k] == before[k]);
            } else {
                assert((before + last)[k] == last[0]);
            }
        }
    }
}

/// A run comes to the same without its blank lines.
proof fn lemma_spoken(s: SessionView, turns: Seq<Turn>)
    requires
        s.pending is None,
        served(s, turns),
    ensures
        served(s, spoken(turns)),
        after_run(s, spoken(turns)) == after_run(s, turns),
    decreases turns.len(),
{
    if turns.len() > 0 {
        let front = turns.drop_last();
        let (s1, before) = after_run(s, front);
        lemma_spoken(s, front);
        lemma_idle_after_run(s, front);
        lemma_turn(s1, turns.last());
        if blank(turns.last().line@) {
            assert(before + Seq::<Seq<char>>::empty() =~= before);
        } else {
            assert(spoken(turns).drop_last() =~= spoken(front));
        }
    }
}

/// Two runs that differ only in blank lines write the same and leave the session in the same
/// state.
pub proof fn law_blank_lines_change_nothing(s: SessionView, a: Seq<Turn>, b: Seq<Turn>)
    requires
        s.pending is None,
        served(s, a),
        served(s, b),
        spoken(a) == spoken(b),
    ensures
        after_run(s, a) == after_run(s, b),
{
    lemma_spoken(s, a);
    lemma_spoken(s, b);
}

/// A blank line may be added anywhere in a run: the run still has every answer, and differs from
/// the one without it only in a blank line.
pub proof fn law_blank_line_may_be_added(
    s: SessionView,
    before: Seq<Turn>,
    line: String,
    verdict: Verdict,
    after: Seq<Turn>,
)
    requires
        s.pending is None,
        served(s, before + after),
        blank(line@),
    ensures
        ({
            let turn = Turn { line, verdict, answers: Seq::empty() };
            &&& served(s, before.push(turn) + after)
            &&& spoken(before.push(turn) + after) == spoken(before + after)
            &&& after_run(s, before.push(turn) + after) == after_run(s, before + after)
        }),
    decreases after.len(),
{
    let turn = Turn { line, verdict, answers: Seq::empty() };
    let longer = before.push(turn) + after;
    let shorter = before + after;
    if after.len() == 0 {
        assert(shorter =~= before);
        assert(longer =~= before.push(turn));
        assert(longer.drop_last() =~= before);
        lemma_idle_after_run(s, before);
        let s1 = after_run(s, before).0;
        law_line_without_message(s1, line, verdict);
        lemma_turn(s1, turn);
        assert(after_run(s, before).1 + Seq::<Seq<char>>::empty() =~= after_run(s, before).1);
    } else {
        let rest = after.drop_last();
        assert(shorter.drop_last() =~= before + rest);
        assert(longer.drop_last() =~= before.push(turn) + rest);
        law_blank_line_may_be_added(s, before, line, verdict, rest);
        assert(longer.last() == shorter.last());
    }
}

proof fn lemma_cache_after_events(s: SessionView, events: Seq<Event>, verdict: Verdict)
    requires
        !listing_in_progress(s),
        s.cache is Some,
    ensures
        after_events(s, events, verdict).0.cache == s.cache,
        !listing_in_progress(after_events(s, events, verdict).0),
    decreases events.len(),
{
    if events.len() > 0 {
        law_cache_is_kept(s, events[0], verdict);
        lemma_cache_after_events(next(s, events[0], verdict).0, events.skip(1), verdict);
    }
}

/// A session that knows the list of tools knows the same list after any run of lines.
pub proof fn law_known_list_is_kept(s: SessionView, turns: Seq<Turn>)
    requires
        !listing_in_progress(s),
        s.cache is Some,
    ensures
        after_run(s, turns).0.cache == s.cache,
        !listing_in_progress(after_run(s, turns).0),
    decreases turns.len(),
{
    if turns.len() > 0 {
        let turn = turns.last();
        law_known_list_is_kept(s, turns.drop_last());
        lemma_cache_after_events(
            after_run(s, turns.drop_last()).0,
            seq![Event::Line(turn.line)] + turn.answers,
            turn.verdict,
        );
    }
}

/// The list of tools is made once in a run: a session that knows it still knows the same list
/// after any run of lines with every answer given, and a line that asks for it is then answered
/// from that list at once, where it has an id.
pub proof fn law_list_is_made_once(
    s: SessionView,
    turns: Seq<Turn>,
    tools: Seq<JsonView>,
    line: String,
    message: JsonView,
    verdict: Verdict,
)
    requires
        s.pending is None,
        s.cache == Some(tools),
        served(s, turns),
        !blank(line@),
        parsed(line@) == Some(message),
        method_of(message) == "tools/list"@,
    ensures
        after_run(s, turns).0.cache == Some(tools),
        next(after_run(s, turns).0, Event::Line(line), verdict) == (
            after_run(s, turns).0,
            quietly(ending(message.get("id"@), Ok(tools_view(tools)))),
        ),
{
    law_known_list_is_kept(s, turns);
    lemma_idle_after_run(s, turns);
    law_known_list_is_answered(after_run(s, turns).0, message, verdict, tools);
}

} // verus!
