//! The configuration that one backup cycle reads.

use vstd::prelude::*;
use vstd::string::*;

verus! {

/// A category as contracts see it: its name and its source paths in order.
pub struct SourceView {
    pub name: Seq<char>,
    pub paths: Seq<Seq<char>>,
}

/// A configuration as contracts see it.
pub struct ConfigView {
    pub destination: Seq<char>,
    pub interval_minutes: int,
    pub keep_days: int,
    pub sources: Seq<SourceView>,
}

/// A named category and the source paths that are backed up into it, in
/// order; a path may occur twice.
#[derive(Clone, Debug)]
pub struct BackupSource {
    pub name: String,
    pub paths: Vec<String>,
}

impl View for BackupSource {
    type V = SourceView;

    open spec fn view(&self) -> SourceView {
        SourceView { name: self.name@, paths: self.paths.deep_view() }
    }
}

#[derive(Clone, Debug)]
pub struct BackuperConfig {
    /// Where to back up to.
    pub destination: String,
    /// How often to back up.
    pub interval_minutes: u32,
    /// How many days to keep backups.
    pub keep_days: u64,
    /// The categories, in the order in which a cycle goes through them.
    pub backup_sources: Vec<BackupSource>,
}

impl View for BackuperConfig {
    type V = ConfigView;

    open spec fn view(&self) -> ConfigView {
        ConfigView {
            destination: self.destination@,
            interval_minutes: self.interval_minutes as int,
            keep_days: self.keep_days as int,
            sources: self.backup_sources.deep_view(),
        }
    }
}

impl DeepView for BackupSource {
    type V = SourceView;

    open spec fn deep_view(&self) -> SourceView {
        self@
    }
}

/// No category name occurs twice.
pub open spec fn distinct_names(sources: Seq<SourceView>) -> bool {
    forall|i: int, j: int| 0 <= i < j < sources.len() ==> sources[i].name != sources[j].name
}

/// The categories of the default configuration, ordered by name.
pub open spec fn default_sources() -> Seq<SourceView> {
    seq![
        SourceView {
            name: "flashpaste"@,
            paths: seq![
                "C:/Program Files/FlashPaste/config.ini"@,
                "C:/Users/Username/AppData/Local/FlashPaste"@,
            ],
        },
        SourceView {
            name: "photoshop"@,
            paths: seq![
                "C:/Users/Username/AppData/Roaming/Adobe/Adobe Photoshop 2024/Presets"@,
                "C:/Users/Username/Documents/Photoshop"@,
            ],
        },
        SourceView {
            name: "sublime"@,
            paths: seq!["C:/Users/Username/AppData/Roaming/Sublime Text/Packages/User"@],
        },
    ]
}

/// The default configuration: hourly backups kept for a week in the
/// directory `backups`, which is meant relative to the directory that holds
/// the configuration file.
pub open spec fn default_config() -> ConfigView {
    ConfigView {
        destination: "backups"@,
        interval_minutes: 60,
        keep_days: 7,
        sources: default_sources(),
    }
}

fn source(name: &str, first: &str, second: Option<&str>) -> (source: BackupSource)
    ensures
        source@.name == name@,
        source@.paths == (match second {
            Some(second) => seq![first@, second@],
            None => seq![first@],
        }),
{
    let mut paths: Vec<String> = Vec::new();
    paths.push(String::from_str(first));
    if let Some(second) = second {
        paths.push(String::from_str(second));
    }
    let source = BackupSource { name: String::from_str(name), paths };
    assert(source@.paths =~= (match second {
        Some(second) => seq![first@, second@],
        None => seq![first@],
    }));
    source
}

impl BackuperConfig {
    /// The categories are those of a mapping from name to sources: no name
    /// occurs twice.
    pub open spec fn wf(&self) -> bool {
        distinct_names(self@.sources)
    }

    pub fn new() -> (config: Self)
        ensures
            config@ == default_config(),
            config.wf(),
    {
        let mut backup_sources: Vec<BackupSource> = Vec::new();
        backup_sources.push(
            source(
                "flashpaste",
                "C:/Program Files/FlashPaste/config.ini",
                Some("C:/Users/Username/AppData/Local/FlashPaste"),
            ),
        );
        backup_sources.push(
            source(
                "photoshop",
                "C:/Users/Username/AppData/Roaming/Adobe/Adobe Photoshop 2024/Presets",
                Some("C:/Users/Username/Documents/Photoshop"),
            ),
        );
        backup_sources.push(
            source("sublime", "C:/Users/Username/AppData/Roaming/Sublime Text/Packages/User", None),
        );
        let config = BackuperConfig {
            destination: String::from_str("backups"),
            interval_minutes: 60,
            keep_days: 7,
            backup_sources,
        };
        proof {
            assert(config@.sources =~= default_sources());
            reveal_strlit("flashpaste");
            reveal_strlit("photoshop");
            reveal_strlit("sublime");
            assert("flashpaste"@[0] != "photoshop"@[0]);
            assert("flashpaste"@[0] != "sublime"@[0]);
            assert("photoshop"@[0] != "sublime"@[0]);
        }
        config
    }
}

} // verus!
