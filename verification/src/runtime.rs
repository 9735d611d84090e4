//! What a compositor run starts with: the configuration, the command given on the
//! command line, and the clients started with the session.
use vstd::prelude::*;

use crate::config::Config;
use crate::text::{concat_str, copy_str, strings_view, trim};

verus! {

/// The options of a compositor run.
#[derive(Debug)]
pub struct RuntimeOptions {
    /// A command to start once the session is up.
    pub command: Option<String>,
    /// Where the configuration was read from, as displayed.
    pub config_path: Option<String>,
    pub config: Option<Config>,
}

/// The commands started with a session: the config's autostart commands in order, then
/// the command given on the command line.
pub open spec fn startup_command_list(config_autostart: Option<Seq<Seq<char>>>, command: Option<Seq<char>>) -> Seq<Seq<char>> {
    let base = match config_autostart {
        Some(a) => a,
        None => Seq::<Seq<char>>::empty(),
    };
    match command {
        Some(c) => base.push(c),
        None => base,
    }
}

/// The commands to start with a session (see `startup_command_list`).
pub fn startup_commands(options: &RuntimeOptions) -> (commands: Vec<String>)
    ensures
        strings_view(commands@) == startup_command_list(
            match options.config { Some(c) => Some(strings_view(c.autostart@)), None => None },
            match options.command { Some(c) => Some(c@), None => None },
        ),
{
    let mut commands: Vec<String> = Vec::new();
    if let Some(config) = &options.config {
        let mut i: usize = 0;
        while i < config.autostart.len()
            invariant
                i <= config.autostart@.len(),
                strings_view(commands@) == strings_view(config.autostart@).take(i as int),
            decreases config.autostart@.len() - i,
        {
            let ghost before = strings_view(commands@);
            commands.push(copy_str(config.autostart[i].as_str()));
            assert(strings_view(commands@) =~= before.push(config.autostart@[i as int]@));
            assert(strings_view(config.autostart@).take(i + 1) =~= strings_view(config.autostart@).take(i as int).push(config.autostart@[i as int]@));
            i += 1;
        }
        assert(strings_view(config.autostart@).take(config.autostart@.len() as int) =~= strings_view(config.autostart@));
    } else {
        assert(strings_view(commands@) =~= Seq::<Seq<char>>::empty());
    }
    if let Some(command) = &options.command {
        let ghost before = strings_view(commands@);
        commands.push(copy_str(command.as_str()));
        assert(strings_view(commands@) =~= before.push(command@));
    }
    commands
}

/// The program and arguments that start a client command: the shell, `-c` and the
/// command, so that a config may use shell syntax. A blank command starts nothing.
pub fn shell_command_args(command: &str) -> (args: Option<Vec<String>>)
    ensures
        trim(command@).len() == 0 ==> args is None,
        trim(command@).len() != 0 ==> (args matches Some(v) && strings_view(v@) == seq!["sh"@, "-c"@, command@]),
{
    if crate::config::is_blank(command) {
        return None;
    }
    let mut v: Vec<String> = Vec::new();
    v.push(copy_str("sh"));
    v.push(copy_str("-c"));
    v.push(copy_str(command));
    assert(strings_view(v@) =~= seq!["sh"@, "-c"@, command@]);
    Some(v)
}

} // verus!

verus! {

/// The line printed when a configuration at `path` passes the checks.
pub fn config_check_line(path: &str, config: &Config) -> (r: String)
    ensures
        r@ == "config OK: "@ + path@ + " (bindings="@ + crate::hooks::decimal_text(config.bindings@.len())
            + ", rules="@ + crate::hooks::decimal_text(config.rules@.len())
            + ", autostart="@ + crate::hooks::decimal_text(config.autostart@.len()) + ")"@,
{
    let a = concat_str("config OK: ", path);
    let b = concat_str(a.as_str(), " (bindings=");
    let c = concat_str(b.as_str(), crate::hooks::decimal_string(config.bindings.len() as u64).as_str());
    let d = concat_str(c.as_str(), ", rules=");
    let e = concat_str(d.as_str(), crate::hooks::decimal_string(config.rules.len() as u64).as_str());
    let f = concat_str(e.as_str(), ", autostart=");
    let g = concat_str(f.as_str(), crate::hooks::decimal_string(config.autostart.len() as u64).as_str());
    concat_str(g.as_str(), ")")
}

} // verus!
