//! What holds of every channel, proved from the model.

use crate::channel::model::{
    messages_in, never_lagged, published_in, run, ChannelView, Reception, Step,
};
use vstd::prelude::*;

verus! {

/// However publishing and reading interleave, a subscriber that never lags
/// has read exactly the messages between the cursor it started with and the
/// cursor it has reached, each once and in the order of publication. All such
/// subscribers therefore read the same messages in the same order; one that
/// was up to date at the start and is so again has read all that was
/// published in between.
pub proof fn law_subscribers_read_in_publication_order(
    channel: ChannelView,
    cursors: Seq<nat>,
    steps: Seq<Step>,
)
    requires
        forall|k: int| 0 <= k < cursors.len() ==> #[trigger] cursors[k] <= channel.next_seq(),
    ensures
        ({
            let after = run(channel, cursors, steps);
            &&& after.cursors.len() == cursors.len()
            &&& after.readings.len() == cursors.len()
            &&& after.channel.history == channel.history + published_in(steps)
            &&& forall|k: int|
                0 <= k < cursors.len() ==> cursors[k] <= #[trigger] after.cursors[k]
                    <= after.channel.next_seq()
            &&& forall|k: int|
                0 <= k < cursors.len() && never_lagged(#[trigger] after.readings[k])
                    ==> messages_in(after.readings[k]) == after.channel.history.subrange(
                    cursors[k] as int,
                    after.cursors[k] as int,
                )
        }),
    decreases steps.len(),
{
    let after = run(channel, cursors, steps);
    if steps.len() == 0 {
        assert(channel.history + published_in(steps) =~= channel.history);
        assert forall|k: int|
            0 <= k < cursors.len() && never_lagged(#[trigger] after.readings[k]) implies messages_in(
            after.readings[k],
        ) == after.channel.history.subrange(cursors[k] as int, after.cursors[k] as int) by {
            assert(after.channel.history.subrange(cursors[k] as int, cursors[k] as int)
                =~= Seq::<Seq<char>>::empty());
        }
    } else {
        let before = run(channel, cursors, steps.drop_last());
        law_subscribers_read_in_publication_order(channel, cursors, steps.drop_last());
        match steps.last() {
            Step::Publish(message) => {
                assert(channel.history + published_in(steps) =~= (channel.history + published_in(
                    steps.drop_last(),
                )).push(message));
                assert forall|k: int|
                    0 <= k < cursors.len() && never_lagged(
                        #[trigger] after.readings[k],
                    ) implies messages_in(after.readings[k]) == after.channel.history.subrange(
                    cursors[k] as int,
                    after.cursors[k] as int,
                ) by {
                    assert(before.cursors[k] <= before.channel.next_seq());
                    assert(after.channel.history.subrange(
                        cursors[k] as int,
                        after.cursors[k] as int,
                    ) =~= before.channel.history.subrange(
                        cursors[k] as int,
                        before.cursors[k] as int,
                    ));
                }
            },
            Step::Read(r) => {
                if 0 <= r < cursors.len() {
                    let cursor = before.cursors[r];
                    let reading = before.channel.reception(cursor);
                    assert(cursors[r] <= cursor <= before.channel.next_seq());
                    assert forall|k: int|
                        0 <= k < cursors.len() && never_lagged(
                            #[trigger] after.readings[k],
                        ) implies messages_in(after.readings[k])
                        == after.channel.history.subrange(
                        cursors[k] as int,
                        after.cursors[k] as int,
                    ) by {
                        if k == r {
                            let now = after.readings[k];
                            assert(now.drop_last() =~= before.readings[k]);
                            assert(now.last() == reading);
                            assert forall|i: int| 0 <= i < before.readings[k].len() implies !(
                            #[trigger] before.readings[k][i] is Lagged) by {
                                assert(now[i] == before.readings[k][i]);
                            }
                            assert(!(now[now.len() - 1] is Lagged));
                            let history = before.channel.history;
                            if cursor < history.len() {
                                assert(history.subrange(cursors[k] as int, cursor as int + 1)
                                    =~= history.subrange(cursors[k] as int, cursor as int).push(
                                    history[cursor as int],
                                ));
                            }
                        } else {
                            assert(before.cursors[k] <= before.channel.next_seq());
                        }
                    }
                    assert forall|k: int| 0 <= k < cursors.len() implies cursors[k]
                        <= #[trigger] after.cursors[k] <= after.channel.next_seq() by {
                        assert(cursors[k] <= before.cursors[k] <= before.channel.next_seq());
                    }
                }
            },
        }
    }
}

/// Publishing in turn appends to the history and changes nothing else.
pub proof fn lemma_publish_all(channel: ChannelView, messages: Seq<Seq<char>>)
    ensures
        channel.publish_all(messages) == (ChannelView {
            history: channel.history + messages,
            ..channel
        }),
    decreases messages.len(),
{
    if messages.len() == 0 {
        assert(channel.history + messages =~= channel.history);
    } else {
        lemma_publish_all(channel, messages.drop_last());
        assert(channel.history + messages =~= (channel.history + messages.drop_last()).push(
            messages.last(),
        ));
    }
}

/// A subscriber that reads nothing while more messages are published than
/// the channel retains is told, at its next read, that it missed as many as
/// were published beyond the capacity. Its cursor then stands at the oldest
/// retained message, which the read after that returns.
pub proof fn law_lag_counts_evicted_messages(
    channel: ChannelView,
    cursor: nat,
    messages: Seq<Seq<char>>,
)
    requires
        channel.wf(),
        cursor == channel.next_seq(),
        messages.len() > channel.capacity,
    ensures
        ({
            let after = channel.publish_all(messages);
            let skipped = (messages.len() - channel.capacity) as nat;
            &&& after.reception(cursor) == Reception::Lagged(skipped)
            &&& after.cursor_after(cursor) == after.oldest()
            &&& after.reception(after.oldest()) == Reception::Message(messages[skipped as int])
            &&& after.cursor_after(after.oldest()) == after.oldest() + 1
        }),
{
    lemma_publish_all(channel, messages);
}

/// The channel never retains more messages than its capacity, and it retains
/// a message for exactly as long as fewer than `capacity` others have been
/// published after it, whether or not anyone has read it.
pub proof fn law_retention_is_bounded(channel: ChannelView, seq: nat)
    requires
        seq < channel.next_seq(),
    ensures
        channel.retained().len() <= channel.capacity,
        channel.retained().len() == channel.next_seq() - channel.oldest(),
        channel.oldest() <= seq <==> channel.next_seq() - seq <= channel.capacity,
        channel.oldest() <= seq ==> channel.retained()[seq - channel.oldest()]
            == channel.history[seq as int],
{
}

/// A lag is reported once: the read that follows the report finds the
/// subscriber where the retained messages begin, not behind them.
pub proof fn law_lag_is_reported_once(channel: ChannelView, cursor: nat)
    ensures
        !(channel.reception(channel.cursor_after(cursor)) is Lagged),
        channel.reception(cursor) is Lagged ==> channel.cursor_after(cursor) == channel.oldest(),
{
}

/// A subscriber reads nothing of what was published before it subscribed:
/// until something more is published, its reads find the channel empty, or
/// closed.
pub proof fn law_no_replay_on_subscribe(channel: ChannelView)
    ensures
        channel.subscribe().reception(channel.next_seq()) == if channel.closed {
            Reception::Closed
        } else {
            Reception::Empty
        },
        channel.subscribe().cursor_after(channel.next_seq()) == channel.next_seq(),
        channel.subscribe().history == channel.history,
{
}

} // verus!
