use vstd::prelude::*;
use crate::user::{CommandUsed, User, UserModel, MAX_COMMAND_HISTORY};

verus! {

/// The last `n` entries of `s` (all of them when there are no more than `n`).
pub open spec fn keep_last<A>(s: Seq<A>, n: nat) -> Seq<A> {
    if s.len() <= n {
        s
    } else {
        s.subrange(s.len() - n, s.len() as int)
    }
}

/// The history after one entry is recorded.
pub open spec fn record_spec(log: Seq<CommandUsed>, entry: CommandUsed) -> Seq<CommandUsed> {
    keep_last(log.push(entry), MAX_COMMAND_HISTORY as nat)
}

/// The history after each of `entries` is recorded in turn.
pub open spec fn record_all(log: Seq<CommandUsed>, entries: Seq<CommandUsed>) -> Seq<CommandUsed>
    decreases entries.len(),
{
    if entries.len() == 0 {
        log
    } else {
        record_all(record_spec(log, entries[0]), entries.drop_first())
    }
}

/// The last `n` entries of a sequence are those of any suffix that is at
/// least that long.
proof fn lemma_keep_last_suffix<A>(x: Seq<A>, y: Seq<A>, n: nat)
    requires
        y.len() <= x.len(),
        y =~= x.subrange(x.len() - y.len(), x.len() as int),
        y.len() >= n || y.len() == x.len(),
    ensures
        keep_last(y, n) == keep_last(x, n),
{
    if y.len() == x.len() {
        assert(y =~= x);
    } else {
        assert(keep_last(y, n) =~= keep_last(x, n));
    }
}

/// However many entries are recorded, the history keeps the newest
/// `MAX_COMMAND_HISTORY` of all entries seen, oldest first, in the order in
/// which they came.
pub proof fn lemma_history_keeps_newest(log: Seq<CommandUsed>, entries: Seq<CommandUsed>)
    requires
        log.len() <= MAX_COMMAND_HISTORY,
    ensures
        record_all(log, entries) == keep_last(log + entries, MAX_COMMAND_HISTORY as nat),
        record_all(log, entries).len() == if log.len() + entries.len() <= MAX_COMMAND_HISTORY {
            log.len() + entries.len()
        } else {
            MAX_COMMAND_HISTORY as nat
        },
    decreases entries.len(),
{
    let n = MAX_COMMAND_HISTORY as nat;
    if entries.len() == 0 {
        assert(log + entries =~= log);
    } else {
        let next = record_spec(log, entries[0]);
        let rest = entries.drop_first();
        lemma_history_keeps_newest(next, rest);
        let x = log.push(entries[0]) + rest;
        assert(x =~= log + entries);
        let y = next + rest;
        lemma_keep_last_suffix(x, y, n);
    }
}

impl User {
    /// Appends the entry `(id, command, now)` to the command history,
    /// evicting the oldest entries so that at most `MAX_COMMAND_HISTORY`
    /// remain.
    pub fn record(&mut self, id: u64, command: String, now: i64)
        ensures
            final(self)@ == (UserModel {
                last_command_list: record_spec(
                    old(self)@.last_command_list,
                    CommandUsed { id, command, timestamp: now },
                ),
                ..old(self)@
            }),
            old(self)@.wf() ==> final(self)@.wf(),
    {
        self.last_command_list.push(CommandUsed::new(id, command, now));
        let len = self.last_command_list.len();
        if len > MAX_COMMAND_HISTORY {
            let newest = self.last_command_list.split_off(len - MAX_COMMAND_HISTORY);
            self.last_command_list = newest;
        }
    }
}

} // verus!
