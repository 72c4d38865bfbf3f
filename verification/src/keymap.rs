use vstd::prelude::*;

use crate::command::{command_views, Command, CommandView};

verus! {

/// The fixed key table of the operator surface: `1` and `2` start the two
/// named jobs, `3` starts the looping job, `q` asks for shutdown, and every
/// other key is unrecognized and has no effect.
pub open spec fn key_command(k: char) -> Option<CommandView> {
    if k == '1' {
        Some(CommandView::StartNamedWork { label: "Task 1"@, duration_secs: 10 })
    } else if k == '2' {
        Some(CommandView::StartNamedWork { label: "Task 2"@, duration_secs: 12 })
    } else if k == '3' {
        Some(CommandView::StartLoopingWork)
    } else if k == 'q' {
        Some(CommandView::Shutdown)
    } else {
        None
    }
}

/// A key is recognized exactly when the table maps it to a command.
pub open spec fn recognized(k: char) -> bool {
    key_command(k) is Some
}

/// The display-log line appended for a key that starts a job; the quit key
/// and unrecognized keys append nothing.
pub open spec fn key_log_entry(k: char) -> Option<Seq<char>> {
    if k == '1' {
        Some("Task 1 triggered"@)
    } else if k == '2' {
        Some("Task 2 triggered"@)
    } else if k == '3' {
        Some("Looping Task triggered"@)
    } else {
        None
    }
}

/// Zero or one commands, as a sequence.
pub open spec fn opt_command_seq(o: Option<CommandView>) -> Seq<CommandView> {
    match o {
        Some(c) => seq![c],
        None => Seq::empty(),
    }
}

/// The commands that a sequence of keypresses produces, in keypress order:
/// one per recognized key, none for any other key.
pub open spec fn commands_of(keys: Seq<char>) -> Seq<CommandView>
    decreases keys.len(),
{
    if keys.len() == 0 {
        Seq::empty()
    } else {
        opt_command_seq(key_command(keys[0])) + commands_of(keys.drop_first())
    }
}

/// How many keys of a sequence the table recognizes.
pub open spec fn recognized_count(keys: Seq<char>) -> nat
    decreases keys.len(),
{
    if keys.len() == 0 {
        0
    } else {
        (if recognized(keys[0]) {
            1nat
        } else {
            0nat
        }) + recognized_count(keys.drop_first())
    }
}

/// Appending one key appends that key's commands (one or none) at the end:
/// the translation works key by key, in order.
pub proof fn lemma_commands_of_snoc(keys: Seq<char>, k: char)
    ensures
        commands_of(keys.push(k)) == commands_of(keys) + opt_command_seq(key_command(k)),
    decreases keys.len(),
{
    let whole = keys.push(k);
    if keys.len() == 0 {
        assert(whole.drop_first() =~= Seq::empty());
        assert(commands_of(whole.drop_first()) =~= Seq::empty());
        assert(commands_of(whole) =~= opt_command_seq(key_command(k)));
        assert(commands_of(keys) + opt_command_seq(key_command(k)) =~= opt_command_seq(
            key_command(k),
        ));
    } else {
        assert(whole.drop_first() =~= keys.drop_first().push(k));
        lemma_commands_of_snoc(keys.drop_first(), k);
        assert(commands_of(whole) =~= commands_of(keys) + opt_command_seq(key_command(k)));
    }
}

/// Law: over every sequence of keypresses, exactly one command arises per
/// recognized keypress — no drops, no duplicates — and `commands_of` lists
/// the commands in keypress order.
pub proof fn lemma_one_command_per_recognized_key(keys: Seq<char>)
    ensures
        commands_of(keys).len() == recognized_count(keys),
    decreases keys.len(),
{
    if keys.len() > 0 {
        lemma_one_command_per_recognized_key(keys.drop_first());
    }
}

/// The table of `key_command`, executably: the command for one keypress, or
/// `None` for an unrecognized key.
pub fn command_for_key(k: char) -> (r: Option<Command>)
    ensures
        match r {
            Some(c) => key_command(k) == Some(c@),
            None => key_command(k) is None,
        },
{
    if k == '1' {
        Some(Command::StartNamedWork { label: "Task 1".to_owned(), duration_secs: 10 })
    } else if k == '2' {
        Some(Command::StartNamedWork { label: "Task 2".to_owned(), duration_secs: 12 })
    } else if k == '3' {
        Some(Command::StartLoopingWork)
    } else if k == 'q' {
        Some(Command::Shutdown)
    } else {
        None
    }
}

/// The display-log line of `key_log_entry`, executably.
pub fn log_entry_for_key(k: char) -> (r: Option<String>)
    ensures
        match r {
            Some(s) => key_log_entry(k) == Some(s@),
            None => key_log_entry(k) is None,
        },
{
    if k == '1' {
        Some("Task 1 triggered".to_owned())
    } else if k == '2' {
        Some("Task 2 triggered".to_owned())
    } else if k == '3' {
        Some("Looping Task triggered".to_owned())
    } else {
        None
    }
}

/// Translate a whole keypress script to the commands it would send, in order.
pub fn commands_for_keys(keys: &Vec<char>) -> (cmds: Vec<Command>)
    ensures
        command_views(cmds@) == commands_of(keys@),
{
    let mut cmds: Vec<Command> = Vec::new();
    let mut i: usize = 0;
    proof {
        assert(keys@.take(0) =~= Seq::empty());
        assert(command_views(cmds@) =~= commands_of(keys@.take(0)));
    }
    while i < keys.len()
        invariant
            i <= keys@.len(),
            command_views(cmds@) == commands_of(keys@.take(i as int)),
        decreases keys@.len() - i,
    {
        let ghost prefix = keys@.take(i as int);
        let k = keys[i];
        match command_for_key(k) {
            Some(c) => {
                cmds.push(c);
            },
            None => {},
        }
        proof {
            assert(keys@.take(i as int + 1) =~= prefix.push(k));
            lemma_commands_of_snoc(prefix, k);
            assert(command_views(cmds@) =~= commands_of(keys@.take(i as int + 1)));
        }
        i += 1;
    }
    proof {
        assert(keys@.take(keys@.len() as int) =~= keys@);
    }
    cmds
}

} // verus!
