use vstd::prelude::*;

use crate::channel::{send_command, ChannelClosed};
use crate::command::{Command, CommandView};
use crate::keymap::{
    command_for_key, key_command, key_log_entry, log_entry_for_key, opt_command_seq, recognized,
};
use tokio::sync::mpsc::UnboundedSender;

verus! {

/// Zero or one display-log lines, as a sequence.
pub open spec fn opt_entry_seq(o: Option<Seq<char>>) -> Seq<Seq<char>> {
    match o {
        Some(e) => seq![e],
        None => Seq::empty(),
    }
}

/// The UI loop's half of the console: the append-only display log it owns,
/// the send half of the command channel, and whether the session is done.
///
/// The session records (in ghost state) every command it has handed to the
/// channel, in order; `handle_key` relates each keypress to that record.
pub struct UiSession {
    tx: UnboundedSender<Command>,
    log: Vec<String>,
    done: bool,
    sent: Ghost<Seq<CommandView>>,
}

impl UiSession {
    /// Every command this session has sent on the channel, oldest first.
    pub closed spec fn sent(&self) -> Seq<CommandView> {
        self.sent@
    }

    /// The display log, line by line.
    pub closed spec fn log_view(&self) -> Seq<Seq<char>> {
        self.log@.map_values(|s: String| s@)
    }

    /// A session is done once it has sent `Shutdown` or found the channel
    /// closed; it then ignores every further keypress.
    pub closed spec fn is_done(&self) -> bool {
        self.done
    }

    /// A fresh session around the send half of the command channel.
    pub fn new(tx: UnboundedSender<Command>) -> (s: UiSession)
        ensures
            s.sent() == Seq::<CommandView>::empty(),
            s.log_view() == Seq::<Seq<char>>::empty(),
            !s.is_done(),
    {
        let s = UiSession { tx, log: Vec::new(), done: false, sent: Ghost(Seq::empty()) };
        proof {
            assert(s.log_view() =~= Seq::<Seq<char>>::empty());
        }
        s
    }

    /// Handle one keypress per the fixed table: append the display-log line
    /// of a start key, send the mapped command, and on the quit key stop the
    /// session. An unrecognized key changes nothing. A closed channel is
    /// fatal: the session reports it once and stops dispatching.
    pub fn handle_key(&mut self, key: char) -> (r: Result<(), ChannelClosed>)
        ensures
            old(self).is_done() ==> r is Ok && final(self).sent() == old(self).sent()
                && final(self).log_view() == old(self).log_view() && final(self).is_done(),
            !old(self).is_done() && !recognized(key) ==> r is Ok
                && final(self).sent() == old(self).sent()
                && final(self).log_view() == old(self).log_view() && !final(self).is_done(),
            !old(self).is_done() && recognized(key) ==> final(self).log_view()
                == old(self).log_view() + opt_entry_seq(key_log_entry(key)),
            !old(self).is_done() && recognized(key) && r is Ok ==> final(self).sent()
                == old(self).sent() + opt_command_seq(key_command(key)),
            !old(self).is_done() && recognized(key) && r is Err ==> final(self).sent()
                == old(self).sent(),
            !old(self).is_done() ==> (final(self).is_done() <==> (key_command(key)
                == Some(CommandView::Shutdown) || r is Err)),
            r is Err ==> !old(self).is_done() && recognized(key),
    {
        if self.done {
            return Ok(());
        }
        let cmd_opt = command_for_key(key);
        match cmd_opt {
            None => Ok(()),
            Some(cmd) => {
                let ghost cv = cmd@;
                let ghost log0 = self.log@;
                match log_entry_for_key(key) {
                    Some(line) => {
                        self.log.push(line);
                        proof {
                            assert(self.log@.map_values(|s: String| s@) =~= log0.map_values(
                                |s: String| s@,
                            ) + opt_entry_seq(key_log_entry(key)));
                        }
                    },
                    None => {
                        proof {
                            assert(self.log@.map_values(|s: String| s@) =~= log0.map_values(
                                |s: String| s@,
                            ) + opt_entry_seq(key_log_entry(key)));
                        }
                    },
                }
                let is_quit = matches!(cmd, Command::Shutdown);
                match send_command(&self.tx, cmd) {
                    Ok(()) => {
                        self.sent = Ghost(self.sent@.push(cv));
                        proof {
                            assert(self.sent@ =~= old(self).sent@ + opt_command_seq(
                                key_command(key),
                            ));
                        }
                        if is_quit {
                            self.done = true;
                        }
                        Ok(())
                    },
                    Err(_rejected) => {
                        self.done = true;
                        Err(ChannelClosed)
                    },
                }
            },
        }
    }

    /// The display log, for rendering.
    pub fn log_lines(&self) -> (r: &Vec<String>)
        ensures
            r@.map_values(|s: String| s@) == self.log_view(),
    {
        &self.log
    }

    /// Whether the session has stopped accepting input.
    pub fn finished(&self) -> (b: bool)
        ensures
            b == self.is_done(),
    {
        self.done
    }
}

} // verus!
