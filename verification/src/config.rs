//! The agent's settings, as they come from the command line and from the
//! environment, and the rule by which several sources become one.

use vstd::prelude::*;

verus! {

/// The port that the server listens on where none is set.
pub const DEFAULT_PORT: u16 = 8180;

/// How much the agent logs.
#[derive(Clone, Copy, Debug, PartialEq, Eq, Structural)]
pub enum LogLevel {
    Off,
    Error,
    Warn,
    Info,
    Debug,
    Trace,
}

/// The settings of the agent. A field that is `None` was not set.
#[derive(Debug, PartialEq, Eq)]
pub struct Config {
    /// The token that callers have to present.
    pub authentication: Option<String>,
    /// The address to listen on.
    pub addr: Option<String>,
    /// The port to listen on.
    pub port: Option<u16>,
    /// How much to log.
    pub log_level: Option<LogLevel>,
    /// The path of the data file.
    pub data: Option<String>,
    /// The path of the policy file.
    pub policies: Option<String>,
    /// Whether the two files are watched and reloaded when they change.
    pub file_watcher: Option<bool>,
}

/// The value of a setting from two sources: the upper one where it is set,
/// else the lower one.
pub open spec fn pick<T>(above: Option<T>, below: Option<T>) -> Option<T> {
    if above is Some {
        above
    } else {
        below
    }
}

/// Settings in which nothing is set.
pub open spec fn unset() -> Config {
    Config {
        authentication: None,
        addr: None,
        port: None,
        log_level: None,
        data: None,
        policies: None,
        file_watcher: None,
    }
}

/// `above` laid over `below`, field by field.
pub open spec fn overlay(below: Config, above: Config) -> Config {
    Config {
        authentication: pick(above.authentication, below.authentication),
        addr: pick(above.addr, below.addr),
        port: pick(above.port, below.port),
        log_level: pick(above.log_level, below.log_level),
        data: pick(above.data, below.data),
        policies: pick(above.policies, below.policies),
        file_watcher: pick(above.file_watcher, below.file_watcher),
    }
}

/// Several sources as one: each laid over those before it, so that a field
/// has the value of the last source that sets it.
pub open spec fn merge_spec(configs: Seq<Config>) -> Config
    decreases configs.len(),
{
    if configs.len() == 0 {
        unset()
    } else {
        overlay(merge_spec(configs.drop_last()), configs.last())
    }
}

fn pick_text(above: &Option<String>, below: Option<String>) -> (picked: Option<String>)
    ensures
        picked == pick(*above, below),
{
    match above {
        Some(text) => Some(text.clone()),
        None => below,
    }
}

fn lay_over(below: Config, above: &Config) -> (merged: Config)
    ensures
        merged == overlay(below, *above),
{
    Config {
        authentication: pick_text(&above.authentication, below.authentication),
        addr: pick_text(&above.addr, below.addr),
        port: match above.port {
            Some(port) => Some(port),
            None => below.port,
        },
        log_level: match above.log_level {
            Some(level) => Some(level),
            None => below.log_level,
        },
        data: pick_text(&above.data, below.data),
        policies: pick_text(&above.policies, below.policies),
        file_watcher: match above.file_watcher {
            Some(flag) => Some(flag),
            None => below.file_watcher,
        },
    }
}

/// What the server is told under one key.
#[derive(Debug, PartialEq, Eq)]
pub enum SettingValue {
    Text(String),
    Port(u16),
    Flag(bool),
}

/// One key of the server's settings with its value.
#[derive(Debug, PartialEq, Eq)]
pub struct Setting {
    pub key: String,
    pub value: SettingValue,
}

/// A setting's value as contracts see it.
pub enum SettingValueView {
    Text(Seq<char>),
    Port(u16),
    Flag(bool),
}

/// A setting as contracts see it.
pub struct SettingView {
    pub key: Seq<char>,
    pub value: SettingValueView,
}

impl View for SettingValue {
    type V = SettingValueView;

    open spec fn view(&self) -> SettingValueView {
        match self {
            SettingValue::Text(text) => SettingValueView::Text(text@),
            SettingValue::Port(port) => SettingValueView::Port(*port),
            SettingValue::Flag(flag) => SettingValueView::Flag(*flag),
        }
    }
}

impl View for Setting {
    type V = SettingView;

    open spec fn view(&self) -> SettingView {
        SettingView { key: self.key@, value: self.value@ }
    }
}

/// The settings of a list, as contracts see them.
pub open spec fn setting_views(list: Seq<Setting>) -> Seq<SettingView> {
    list.map_values(|setting: Setting| setting@)
}

/// The text setting `key`, where `value` is set.
pub open spec fn text_setting(key: Seq<char>, value: Option<String>) -> Seq<SettingView> {
    match value {
        Some(text) => seq![SettingView { key, value: SettingValueView::Text(text@) }],
        None => Seq::empty(),
    }
}

/// What the server is told: each field that is set under its key, in the
/// order of the fields, and the port in any case.
pub open spec fn server_settings_spec(config: Config) -> Seq<SettingView> {
    text_setting("authentication"@, config.authentication) + text_setting(
        "address"@,
        config.addr,
    ) + seq![
        SettingView {
            key: "port"@,
            value: SettingValueView::Port(
                match config.port {
                    Some(port) => port,
                    None => DEFAULT_PORT,
                },
            ),
        },
    ] + text_setting("data"@, config.data) + text_setting("policy"@, config.policies) + (
    match config.file_watcher {
        Some(flag) => seq![
            SettingView { key: "file_watcher"@, value: SettingValueView::Flag(flag) },
        ],
        None => Seq::empty(),
    })
}

fn push_text(list: &mut Vec<Setting>, key: &str, value: &Option<String>)
    ensures
        setting_views(final(list)@) == setting_views(old(list)@) + text_setting(key@, *value),
{
    match value {
        Some(text) => {
            list.push(
                Setting { key: String::from_str(key), value: SettingValue::Text(text.clone()) },
            );
            assert(setting_views(list@) =~= setting_views(old(list)@) + text_setting(key@, *value));
        },
        None => {
            assert(setting_views(list@) =~= setting_views(old(list)@) + text_setting(key@, *value));
        },
    }
}

impl Config {
    /// Settings in which nothing is set.
    pub fn new() -> (config: Config)
        ensures
            config == unset(),
    {
        Config {
            authentication: None,
            addr: None,
            port: None,
            log_level: None,
            data: None,
            policies: None,
            file_watcher: None,
        }
    }

    /// Makes one of several sources. A field has the value of the last
    /// source in `configs` that sets it, and is unset where none does.
    pub fn merge(configs: Vec<Config>) -> (config: Config)
        ensures
            config == merge_spec(configs@),
    {
        let mut config = Config::new();
        let mut i: usize = 0;
        while i < configs.len()
            invariant
                i <= configs@.len(),
                config == merge_spec(configs@.take(i as int)),
            decreases configs@.len() - i,
        {
            config = lay_over(config, &configs[i]);
            assert(configs@.take(i + 1).drop_last() =~= configs@.take(i as int));
            i += 1;
        }
        assert(configs@.take(i as int) =~= configs@);
        config
    }

    /// What the server is told of these settings.
    pub fn server_settings(&self) -> (list: Vec<Setting>)
        ensures
            setting_views(list@) == server_settings_spec(*self),
    {
        let mut list: Vec<Setting> = Vec::new();
        assert(setting_views(list@) =~= Seq::<SettingView>::empty());
        push_text(&mut list, "authentication", &self.authentication);
        push_text(&mut list, "address", &self.addr);
        let ghost so_far = setting_views(list@);
        let port: u16 = match self.port {
            Some(port) => port,
            None => DEFAULT_PORT,
        };
        list.push(Setting { key: String::from_str("port"), value: SettingValue::Port(port) });
        assert(setting_views(list@) =~= so_far + seq![
            SettingView { key: "port"@, value: SettingValueView::Port(port) },
        ]);
        push_text(&mut list, "data", &self.data);
        push_text(&mut list, "policy", &self.policies);
        let ghost so_far = setting_views(list@);
        match self.file_watcher {
            Some(flag) => {
                list.push(
                    Setting {
                        key: String::from_str("file_watcher"),
                        value: SettingValue::Flag(flag),
                    },
                );
                assert(setting_views(list@) =~= so_far + seq![
                    SettingView { key: "file_watcher"@, value: SettingValueView::Flag(flag) },
                ]);
            },
            None => {
                assert(so_far + Seq::<SettingView>::empty() =~= so_far);
            },
        }
        assert(setting_views(list@) =~= server_settings_spec(*self));
        list
    }

    /// Whether the file watcher is to run: only where it was switched on.
    pub fn watches_files(&self) -> (on: bool)
        ensures
            on == (self.file_watcher == Some(true)),
    {
        match self.file_watcher {
            Some(flag) => flag,
            None => false,
        }
    }

    /// The path of the data file, empty where none is set.
    pub fn data_path(&self) -> (path: String)
        ensures
            path@ == match self.data {
                Some(text) => text@,
                None => Seq::<char>::empty(),
            },
    {
        match &self.data {
            Some(text) => text.clone(),
            None => String::new(),
        }
    }

    /// The path of the policy file, empty where none is set.
    pub fn policy_path(&self) -> (path: String)
        ensures
            path@ == match self.policies {
                Some(text) => text@,
                None => Seq::<char>::empty(),
            },
    {
        match &self.policies {
            Some(text) => text.clone(),
            None => String::new(),
        }
    }
}

/// The settings of the agent from its two sources. The environment is laid
/// over the command line: a field that both set has the environment's value.
pub fn init(args: Config, env: Config) -> (config: Config)
    ensures
        config == overlay(args, env),
        config == merge_spec(seq![args, env]),
{
    let ghost sources = seq![args, env];
    proof {
        assert(sources.drop_last() =~= seq![args]);
        assert(seq![args].drop_last() =~= Seq::<Config>::empty());
        assert(sources.last() == env);
        assert(seq![args].last() == args);
        assert(merge_spec(Seq::<Config>::empty()) == unset());
        assert(merge_spec(seq![args]) == overlay(unset(), args));
        assert(overlay(unset(), args) == args);
    }
    let mut configs: Vec<Config> = Vec::new();
    configs.push(args);
    configs.push(env);
    assert(configs@ =~= sources);
    Config::merge(configs)
}

} // verus!
