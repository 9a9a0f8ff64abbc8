//! What the user has configured.

use crate::command::LaunchCommand;
use crate::logger::{Level, Notice, NoticeView};
use crate::text::joined;
use vstd::hash_map::StringHashMap;
use vstd::prelude::*;

verus! {

/// The applications that are not brought back.
pub struct Skip {
    pub apps: Vec<String>,
}

/// The user's configuration.
pub struct Config {
    /// What not to bring back.
    skip: Skip,
    /// Maps an application id to its actual launch command.
    launch: StringHashMap<LaunchCommand>,
}

/// What a [`Config`] says.
pub struct ConfigView {
    pub skip_apps: Seq<Seq<char>>,
    pub launch: Map<Seq<char>, crate::command::LaunchCommandView>,
}

impl ConfigView {
    /// The command for an application id: the configured one, otherwise the id itself.
    pub open spec fn command_for(self, app_id: Seq<char>) -> crate::command::LaunchCommandView {
        if self.launch.contains_key(app_id) {
            self.launch[app_id]
        } else {
            crate::command::LaunchCommandView::Shell(app_id)
        }
    }
}

impl View for Config {
    type V = ConfigView;

    closed spec fn view(&self) -> ConfigView {
        ConfigView {
            skip_apps: self.skip.apps.deep_view(),
            launch: self.launch@.map_values(|command: LaunchCommand| command@),
        }
    }
}

impl Default for Config {
    /// Nothing is skipped and no application id is mapped.
    fn default() -> (res: Self)
        ensures
            res@.skip_apps == Seq::<Seq<char>>::empty(),
            res@.launch == Map::<Seq<char>, crate::command::LaunchCommandView>::empty(),
    {
        Config::new(Skip { apps: Vec::new() })
    }
}

impl Config {
    /// A configuration that skips what `skip` says and maps no application id.
    pub fn new(skip: Skip) -> (res: Self)
        ensures
            res@.skip_apps == skip.apps.deep_view(),
            res@.launch == Map::<Seq<char>, crate::command::LaunchCommandView>::empty(),
    {
        let res = Config { skip, launch: StringHashMap::new() };
        assert(res@.launch =~= Map::<Seq<char>, crate::command::LaunchCommandView>::empty());
        res
    }

    /// Maps `app_id` to `command`.
    pub fn map_launch(&mut self, app_id: String, command: LaunchCommand)
        ensures
            final(self)@.skip_apps == old(self)@.skip_apps,
            final(self)@.launch == old(self)@.launch.insert(app_id@, command@),
    {
        self.launch.insert(app_id, command);
        assert(self@.launch =~= old(self)@.launch.insert(app_id@, command@));
    }

    /// The applications that are not brought back.
    pub fn skip_apps(&self) -> (res: &[String])
        ensures
            res.deep_view() == self@.skip_apps,
    {
        self.skip.apps.as_slice()
    }

    /// The command that starts the application of that id.
    pub fn command_for(&self, app_id: &String) -> (res: LaunchCommand)
        ensures
            res@ == self@.command_for(app_id@),
    {
        match self.launch.get(app_id.as_str()) {
            Some(command) => command.clone(),
            None => LaunchCommand::Shell(app_id.clone()),
        }
    }
}

/// The configuration that the program goes by: the one that was loaded, or the default values
/// if it could not be, which the user is told with the reason.
pub fn config_or_default(loaded: Result<Config, String>) -> (res: (Config, Option<Notice>))
    ensures
        match loaded {
            Ok(config) => res.0 == config && res.1 is None,
            Err(reason) => {
                &&& res.0@.skip_apps == Seq::<Seq<char>>::empty()
                &&& res.0@.launch == Map::<Seq<char>, crate::command::LaunchCommandView>::empty()
                &&& res.1.deep_view() == Some(
                    NoticeView {
                        level: Level::Warn,
                        text: "failed to load config, using default values (reason: "@ + reason@
                            + ")"@,
                    },
                )
            },
        },
{
    match loaded {
        Ok(config) => (config, None),
        Err(reason) => {
            let start: String = joined(
                "failed to load config, using default values (reason: ",
                reason.as_str(),
            );
            let text: String = joined(start.as_str(), ")");
            (Config::default(), Some(Notice { level: Level::Warn, text }))
        },
    }
}

/// Mapping an application id decides its command, and that of no other; an id that is not mapped
/// is its own command.
pub proof fn law_mapping_decides_the_command(
    config: ConfigView,
    app_id: Seq<char>,
    other: Seq<char>,
    command: crate::command::LaunchCommandView,
)
    ensures
        ({
            let mapped = ConfigView { launch: config.launch.insert(app_id, command), ..config };
            let unmapped = ConfigView { launch: config.launch.remove(app_id), ..config };
            &&& mapped.command_for(app_id) == command
            &&& other != app_id ==> mapped.command_for(other) == config.command_for(other)
            &&& unmapped.command_for(app_id) == crate::command::LaunchCommandView::Shell(app_id)
        }),
{
}

} // verus!
