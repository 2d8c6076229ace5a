//! The `redirect` action at run time.

use vstd::prelude::*;
use crate::address::{sanitize_address, sanitized};
use crate::compiler::redirect::{ByTime, Redirect};
use crate::runtime::context::{Action, Context, Variables};
use crate::runtime::date::{absolute_limit, parse_absolute_limit};

verus! {

/// The number of redirects among the actions.
pub open spec fn redirect_count(actions: Seq<Action>) -> nat
    decreases actions.len(),
{
    if actions.len() == 0 {
        0
    } else {
        redirect_count(actions.drop_last()) + if actions.last() is Redirect {
            1nat
        } else {
            0nat
        }
    }
}

/// One more action raises the number of redirects by one if it is a
/// redirect, and not at all if it is none.
pub proof fn lemma_redirect_count_push(actions: Seq<Action>, action: Action)
    ensures
        redirect_count(actions.push(action)) == redirect_count(actions) + if action is Redirect {
            1nat
        } else {
            0nat
        },
{
    assert(actions.push(action).drop_last() =~= actions);
}

/// The time limit of a redirect when it runs: an absolute limit is read from
/// its text as a date, and is 0 when the text holds no valid date.
pub open spec fn run_by_time(vars: Variables, by_time: ByTime<crate::compiler::tokens::StringItem>) -> ByTime<i64> {
    match by_time {
        ByTime::Relative { rlimit, mode, trace } => ByTime::Relative { rlimit, mode, trace },
        ByTime::Absolute { alimit, mode, trace } => ByTime::Absolute {
            alimit: absolute_limit(vars.text(alimit)),
            mode,
            trace,
        },
        ByTime::Unlimited => ByTime::Unlimited,
    }
}

impl Context {
    /// Whether `after` differs from this context in its actions and in the
    /// mark for pending edits at most.
    pub open spec fn same_but_actions(self, after: Context) -> bool {
        &&& after.message == self.message
        &&& after.part == self.part
        &&& after.vars == self.vars
        &&& after.runtime == self.runtime
        &&& after.user_address == self.user_address
        &&& after.user_full_name == self.user_full_name
        &&& after.current_time == self.current_time
        &&& after.messages == self.messages
        &&& after.edited_message == self.edited_message
    }

    /// The number of redirects asked for so far.
    pub fn count_redirects(&self) -> (r: usize)
        ensures
            r == redirect_count(self.actions@),
    {
        let mut count: usize = 0;
        let mut i: usize = 0;
        while i < self.actions.len()
            invariant
                i <= self.actions.len(),
                count <= i,
                count == redirect_count(self.actions@.take(i as int)),
            decreases self.actions.len() - i,
        {
            assert(self.actions@.take(i + 1).drop_last() == self.actions@.take(i as int));
            match &self.actions[i] {
                Action::Redirect { .. } => {
                    count += 1;
                },
                _ => {},
            }
            i += 1;
        }
        assert(self.actions@.take(self.actions@.len() as int) == self.actions@);
        count
    }

    /// Hands out the bytes of the message with the edits made so far, after
    /// which no edit is pending.
    pub fn build_message(&mut self) -> (r: Vec<u8>)
        ensures
            r@ == old(self).edited_message@,
            old(self).same_but_actions(*final(self)),
            final(self).actions == old(self).actions,
            !final(self).has_changes,
    {
        self.has_changes = false;
        self.edited_message.clone()
    }
}

impl Redirect {
    /// Whether `after` is the context `before` once this redirect has run:
    /// nothing happens when the address is malformed or the script has used
    /// up its redirects; else pending edits are handed out as an update of
    /// the message, and the redirect follows.
    pub open spec fn redirected(self, before: Context, after: Context) -> bool {
        match sanitized(before.vars.text(self.address)) {
            None => after == before,
            Some(address) => if redirect_count(before.actions@) >= before.runtime.max_redirects {
                after == before
            } else {
                let n = before.actions@.len() as int;
                let m = if before.has_changes {
                    n + 1
                } else {
                    n
                };
                &&& before.same_but_actions(after)
                &&& !after.has_changes
                &&& after.actions@.len() == m + 1
                &&& after.actions@.take(n) == before.actions@
                &&& before.has_changes ==> (after.actions@[n] matches Action::UpdateMessage {
                    bytes,
                } && bytes@ == before.edited_message@)
                &&& after.actions@[m] matches Action::Redirect {
                    address: a,
                    copy,
                    notify,
                    return_of_content,
                    by_time,
                }
                &&& a@ == address
                &&& copy == self.copy
                &&& notify@ == self.notify@
                &&& return_of_content == self.return_of_content
                &&& by_time == run_by_time(before.vars, self.by_time)
            },
        }
    }

    /// Runs the redirect: adds it to the actions of the context, unless its
    /// address is malformed or the script has used up its redirects.
    pub fn exec(&self, ctx: &mut Context)
        ensures
            self.redirected(*old(ctx), *final(ctx)),
            redirect_count(old(ctx).actions@) <= old(ctx).runtime.max_redirects ==> redirect_count(
                final(ctx).actions@,
            ) <= old(ctx).runtime.max_redirects,
    {
        let text = ctx.vars.eval_string(&self.address);
        if let Some(address) = sanitize_address(text.as_str()) {
            if ctx.count_redirects() < ctx.runtime.max_redirects {
                let ghost before = ctx.actions@;
                if ctx.has_changes {
                    let bytes = ctx.build_message();
                    ctx.actions.push(Action::UpdateMessage { bytes });
                    proof {
                        lemma_redirect_count_push(before, ctx.actions@.last());
                    }
                }
                let ghost middle = ctx.actions@;
                let by_time = match &self.by_time {
                    ByTime::Relative { rlimit, mode, trace } => ByTime::Relative {
                        rlimit: *rlimit,
                        mode: *mode,
                        trace: *trace,
                    },
                    ByTime::Absolute { alimit, mode, trace } => ByTime::Absolute {
                        alimit: parse_absolute_limit(ctx.vars.eval_string(alimit).as_str()),
                        mode: *mode,
                        trace: *trace,
                    },
                    ByTime::Unlimited => ByTime::Unlimited,
                };
                ctx.actions.push(
                    Action::Redirect {
                        address,
                        copy: self.copy,
                        notify: self.notify.clone(),
                        return_of_content: self.return_of_content,
                        by_time,
                    },
                );
                proof {
                    lemma_redirect_count_push(middle, ctx.actions@.last());
                    assert(ctx.actions@.take(before.len() as int) =~= before);
                }
            }
        }
    }
}

} // verus!
