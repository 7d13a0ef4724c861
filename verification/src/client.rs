use vstd::prelude::*;
use crate::command::{reply_of, table_after, CommandModel, Response};
use crate::mailbox::{Entry, Mailbox};
use crate::server::apply_command;
use crate::table::Table;

verus! {

/// The commands of a run of pending entries, oldest first.
pub open spec fn commands_of(s: Seq<Entry>) -> Seq<CommandModel> {
    s.map_values(|e: Entry| e.cmd@)
}

/// What the manager owes the caller behind entry `i` of a drained run:
/// an outcome arrives exactly when that caller still holds its receiving
/// half, and the outcome is the answer to its own command against the
/// table as the `i` earlier commands of the run left it.
pub open spec fn outcome_matches(
    m0: Map<Seq<char>, Seq<u8>>,
    entries: Seq<Entry>,
    outcomes: Seq<Option<Response>>,
    i: int,
) -> bool {
    &&& (outcomes[i] is Some <==> entries[i].resp.is_live())
    &&& (outcomes[i] matches Some(r) ==> r@ == reply_of(
        table_after(m0, commands_of(entries).take(i)),
        entries[i].cmd@,
    ))
}

/// The manager task's loop, run until the mailbox is quiet: take one entry
/// at a time from the head of the FIFO, execute its command against the one
/// shared connection — whose far end is the server's table — and route the
/// result back through that entry's reply channel.
///
/// The contract carries the two ordering laws of this design. First, the
/// connection sees the commands in exactly the order the callers enqueued
/// them: the final table is `table_after` of the mailbox's commands oldest
/// first, and each caller is answered against the table as exactly its
/// predecessors in that order left it. Second, a caller that dropped its
/// receiving half costs nothing: its slot in `outcomes` is `None`, and
/// every later entry is still executed and answered in turn.
pub fn run_manager(table: &mut Table, mailbox: &mut Mailbox) -> (outcomes: Vec<Option<Response>>)
    requires
        old(mailbox).wf(),
    ensures
        final(mailbox).wf(),
        final(mailbox)@.len() == 0,
        final(table)@ == table_after(old(table)@, commands_of(old(mailbox)@)),
        outcomes@.len() == old(mailbox)@.len(),
        forall|i: int| 0 <= i < old(mailbox)@.len() ==> #[trigger] outcome_matches(
            old(table)@,
            old(mailbox)@,
            outcomes@,
            i,
        ),
{
    let ghost entries0 = mailbox@;
    let ghost m0 = table@;
    let mut outcomes: Vec<Option<Response>> = Vec::new();
    while 0 < mailbox.len()
        invariant
            mailbox.wf(),
            outcomes@.len() + mailbox@.len() == entries0.len(),
            mailbox@ == entries0.skip(outcomes@.len() as int),
            table@ == table_after(m0, commands_of(entries0).take(outcomes@.len() as int)),
            forall|i: int| 0 <= i < outcomes@.len() ==> #[trigger] outcome_matches(
                m0,
                entries0,
                outcomes@,
                i,
            ),
        decreases mailbox@.len(),
    {
        let ghost j = outcomes@.len() as int;
        proof {
            assert(entries0.skip(j)[0] == entries0[j]);
        }
        let next = mailbox.dequeue();
        match next {
            Some(entry) => {
                let Entry { cmd, resp } = entry;
                let ghost pending = outcomes@;
                let result = apply_command(table, cmd);
                let delivered = resp.send(result);
                outcomes.push(delivered);
                proof {
                    assert(entries0.skip(j).drop_first() =~= entries0.skip(j + 1));
                    assert(commands_of(entries0).take(j + 1) =~= commands_of(entries0).take(
                        j,
                    ).push(entries0[j].cmd@));
                    crate::command::lemma_table_after_snoc(
                        m0,
                        commands_of(entries0).take(j),
                        entries0[j].cmd@,
                    );
                    assert forall|i: int| 0 <= i < outcomes@.len() implies #[trigger]
                        outcome_matches(m0, entries0, outcomes@, i) by {
                        if i < j {
                            assert(outcome_matches(m0, entries0, pending, i));
                            assert(outcomes@[i] == pending[i]);
                        } else {
                            assert(outcomes@[j] == delivered);
                            assert(commands_of(entries0).take(j) == commands_of(entries0).take(i));
                        }
                    }
                }
            },
            None => {
                proof {
                    assert(false);
                }
            },
        }
    }
    proof {
        assert(commands_of(entries0).take(entries0.len() as int) =~= commands_of(entries0));
    }
    outcomes
}

} // verus!
