//! Which tattoys start, and in which order.
use vstd::prelude::*;

verus! {

/// The tattoys that come with Tattoy, and plugins.
#[derive(Clone, Copy, Debug, PartialEq, Eq, Structural)]
pub enum TattoyKind {
    /// Notifications in the UI.
    Notifications,
    /// The scrollbar.
    Scrollbar,
    /// The random walker.
    RandomWalker,
    /// The minimap.
    Minimap,
    /// GPU shaders.
    Shaders,
    /// A command running in the background.
    BGCommand,
    /// The plugin at this index of the configuration.
    Plugin(usize),
}

/// The tattoys that the configuration enables.
#[derive(Clone, Copy, Debug, PartialEq, Eq, Structural)]
pub struct EnabledInConfig {
    /// Notifications.
    pub notifications: bool,
    /// The minimap.
    pub minimap: bool,
    /// Shaders.
    pub shaders: bool,
    /// The background command.
    pub bg_command: bool,
}

/// The tattoys that the command line asked for, by name.
#[derive(Clone, Copy, Debug, PartialEq, Eq, Structural)]
pub struct EnabledOnCommandLine {
    /// `notifications` was asked for.
    pub notifications: bool,
    /// `random_walker` was asked for.
    pub random_walker: bool,
    /// `minimap` was asked for.
    pub minimap: bool,
    /// `shaders` was asked for.
    pub shaders: bool,
    /// `bg_command` was asked for.
    pub bg_command: bool,
}

/// The tattoy for one entry of a plugin configuration: a plugin starts unless it is
/// explicitly disabled.
pub open spec fn plugin_starts(enabled: Option<bool>) -> bool {
    enabled != Some(false)
}

/// The plugins that start, among the first `n` configured.
pub open spec fn started_plugins(plugins: Seq<Option<bool>>, n: int) -> Seq<TattoyKind>
    decreases n,
{
    if n <= 0 {
        Seq::empty()
    } else {
        started_plugins(plugins, n - 1) + if plugin_starts(plugins[n - 1]) {
            seq![TattoyKind::Plugin((n - 1) as usize)]
        } else {
            Seq::empty()
        }
    }
}

/// One tattoy, if it is enabled.
pub open spec fn if_enabled(enabled: bool, kind: TattoyKind) -> Seq<TattoyKind> {
    if enabled {
        seq![kind]
    } else {
        Seq::empty()
    }
}

/// The tattoys to start, in order: notifications first (the others may notify), the scrollbar
/// always, then the random walker, the minimap, shaders and the background command when asked
/// for or configured (the random walker only when asked for), then the configured plugins.
pub open spec fn tattoys_started(
    cli: EnabledOnCommandLine,
    config: EnabledInConfig,
    plugins: Seq<Option<bool>>,
) -> Seq<TattoyKind> {
    if_enabled(cli.notifications || config.notifications, TattoyKind::Notifications) + seq![
        TattoyKind::Scrollbar,
    ] + if_enabled(cli.random_walker, TattoyKind::RandomWalker) + if_enabled(
        cli.minimap || config.minimap,
        TattoyKind::Minimap,
    ) + if_enabled(cli.shaders || config.shaders, TattoyKind::Shaders) + if_enabled(
        cli.bg_command || config.bg_command,
        TattoyKind::BGCommand,
    ) + started_plugins(plugins, plugins.len() as int)
}

/// Push a tattoy when it is enabled.
fn push_if(out: &mut Vec<TattoyKind>, enabled: bool, kind: TattoyKind)
    ensures
        final(out)@ == old(out)@ + if_enabled(enabled, kind),
{
    if enabled {
        out.push(kind);
    }
    assert(out@ =~= old(out)@ + if_enabled(enabled, kind));
}

/// Decide which tattoys to start, in order.
pub fn start_tattoys(
    cli: EnabledOnCommandLine,
    config: EnabledInConfig,
    plugins: &Vec<Option<bool>>,
) -> (res: Vec<TattoyKind>)
    ensures
        res@ == tattoys_started(cli, config, plugins@),
{
    let mut out: Vec<TattoyKind> = Vec::new();
    push_if(&mut out, cli.notifications || config.notifications, TattoyKind::Notifications);
    push_if(&mut out, true, TattoyKind::Scrollbar);
    push_if(&mut out, cli.random_walker, TattoyKind::RandomWalker);
    push_if(&mut out, cli.minimap || config.minimap, TattoyKind::Minimap);
    push_if(&mut out, cli.shaders || config.shaders, TattoyKind::Shaders);
    push_if(&mut out, cli.bg_command || config.bg_command, TattoyKind::BGCommand);
    let ghost builtin = out@;
    let mut i: usize = 0;
    while i < plugins.len()
        invariant
            0 <= i <= plugins@.len(),
            out@ == builtin + started_plugins(plugins@, i as int),
        decreases plugins@.len() - i,
    {
        let starts = match plugins[i] {
            Some(is_enabled) => is_enabled,
            None => true,
        };
        push_if(&mut out, starts, TattoyKind::Plugin(i));
        i = i + 1;
        assert(out@ =~= builtin + started_plugins(plugins@, i as int));
    }
    assert(out@ =~= tattoys_started(cli, config, plugins@));
    out
}

/// The scrollbar always starts.
pub proof fn lemma_scrollbar_always_starts(
    cli: EnabledOnCommandLine,
    config: EnabledInConfig,
    plugins: Seq<Option<bool>>,
)
    ensures
        tattoys_started(cli, config, plugins).contains(TattoyKind::Scrollbar),
{
    let s = tattoys_started(cli, config, plugins);
    let k = if_enabled(cli.notifications || config.notifications, TattoyKind::Notifications).len();
    assert(s[k as int] == TattoyKind::Scrollbar);
}

} // verus!
