//! Labels of the settings page's choices.
use vstd::prelude::*;

verus! {

/// Where the tab list sits.
#[derive(Clone, Copy, Debug, PartialEq, Eq, Structural)]
pub enum TabListPosition {
    Top,
    Bottom,
    Left,
    Right,
}

/// Where a new tab goes.
#[derive(Clone, Copy, Debug, PartialEq, Eq, Structural)]
pub enum NewTabPlacement {
    Start,
    End,
    AfterSelection,
    BeforeSelection,
}

/// Where opened files go.
#[derive(Clone, Copy, Debug, PartialEq, Eq, Structural)]
pub enum FileOpenDisposition {
    NewTab,
    CurrentTab,
}

/// What happens at startup.
#[derive(Clone, Copy, Debug, PartialEq, Eq, Structural)]
pub enum StartupSessionBehavior {
    ContinuePreviousSession,
    StartFreshSession,
}

/// The app's theme setting.
#[derive(Clone, Copy, Debug, PartialEq, Eq, Structural)]
pub enum AppThemeMode {
    System,
    Light,
    Dark,
}

/// The theme the system reports.
#[derive(Clone, Copy, Debug, PartialEq, Eq, Structural)]
pub enum SystemTheme {
    Light,
    Dark,
}

/// The theme choice shown on the settings page; `Custom` when the editor
/// palette was customised.
#[derive(Clone, Copy, Debug, PartialEq, Eq, Structural)]
pub enum ThemeModeSelection {
    System,
    Light,
    Dark,
    Custom,
}

impl ThemeModeSelection {
    /// The option's label in the list.
    pub fn label(self) -> (label: &'static str)
        ensures
            label@ == match self {
                ThemeModeSelection::System => "Use system setting"@,
                ThemeModeSelection::Light => "Light"@,
                ThemeModeSelection::Dark => "Dark"@,
                ThemeModeSelection::Custom => "Custom"@,
            },
    {
        match self {
            ThemeModeSelection::System => "Use system setting",
            ThemeModeSelection::Light => "Light",
            ThemeModeSelection::Dark => "Dark",
            ThemeModeSelection::Custom => "Custom",
        }
    }

    /// The option's short label on the selector.
    pub fn pill_label(self) -> (label: &'static str)
        ensures
            label@ == match self {
                ThemeModeSelection::System => "System"@,
                ThemeModeSelection::Light => "Light"@,
                ThemeModeSelection::Dark => "Dark"@,
                ThemeModeSelection::Custom => "Custom"@,
            },
    {
        match self {
            ThemeModeSelection::System => "System",
            ThemeModeSelection::Light => "Light",
            ThemeModeSelection::Dark => "Dark",
            ThemeModeSelection::Custom => "Custom",
        }
    }
}

/// The theme choice to show: `Custom` for a customised palette, else the theme setting.
pub fn selected_theme_mode(has_custom_editor_palette: bool, theme_mode: AppThemeMode) -> (selection: ThemeModeSelection)
    ensures
        selection == if has_custom_editor_palette {
            ThemeModeSelection::Custom
        } else {
            match theme_mode {
                AppThemeMode::System => ThemeModeSelection::System,
                AppThemeMode::Light => ThemeModeSelection::Light,
                AppThemeMode::Dark => ThemeModeSelection::Dark,
            }
        },
{
    if has_custom_editor_palette {
        ThemeModeSelection::Custom
    } else {
        match theme_mode {
            AppThemeMode::System => ThemeModeSelection::System,
            AppThemeMode::Light => ThemeModeSelection::Light,
            AppThemeMode::Dark => ThemeModeSelection::Dark,
        }
    }
}

/// The theme preset a selection applies; `Custom` applies none.
pub fn theme_mode_for_selection(selection: ThemeModeSelection) -> (mode: Option<AppThemeMode>)
    ensures
        mode == match selection {
            ThemeModeSelection::System => Some(AppThemeMode::System),
            ThemeModeSelection::Light => Some(AppThemeMode::Light),
            ThemeModeSelection::Dark => Some(AppThemeMode::Dark),
            ThemeModeSelection::Custom => None::<AppThemeMode>,
        },
{
    match selection {
        ThemeModeSelection::System => Some(AppThemeMode::System),
        ThemeModeSelection::Light => Some(AppThemeMode::Light),
        ThemeModeSelection::Dark => Some(AppThemeMode::Dark),
        ThemeModeSelection::Custom => None,
    }
}

/// The detected system theme's name.
pub fn detected_system_theme_label(system_theme: Option<SystemTheme>) -> (label: &'static str)
    ensures
        label@ == match system_theme {
            Some(SystemTheme::Light) => "Light"@,
            Some(SystemTheme::Dark) => "Dark"@,
            None => "Unknown"@,
        },
{
    match system_theme {
        Some(SystemTheme::Light) => "Light",
        Some(SystemTheme::Dark) => "Dark",
        None => "Unknown",
    }
}

/// Name of a tab list position.
pub fn tab_list_position_label(position: TabListPosition) -> (label: &'static str)
    ensures
        label@ == match position {
            TabListPosition::Top => "Top"@,
            TabListPosition::Bottom => "Bottom"@,
            TabListPosition::Left => "Left"@,
            TabListPosition::Right => "Right"@,
        },
{
    match position {
        TabListPosition::Top => "Top",
        TabListPosition::Bottom => "Bottom",
        TabListPosition::Left => "Left",
        TabListPosition::Right => "Right",
    }
}

/// Long label of a new-tab placement.
pub fn new_tab_placement_label(placement: NewTabPlacement) -> (label: &'static str)
    ensures
        label@ == match placement {
            NewTabPlacement::Start => "Start of list"@,
            NewTabPlacement::End => "End of list"@,
            NewTabPlacement::BeforeSelection => "Before selection"@,
            NewTabPlacement::AfterSelection => "After selection"@,
        },
{
    match placement {
        NewTabPlacement::Start => "Start of list",
        NewTabPlacement::End => "End of list",
        NewTabPlacement::BeforeSelection => "Before selection",
        NewTabPlacement::AfterSelection => "After selection",
    }
}

/// Short label of a new-tab placement.
pub fn new_tab_placement_pill_label(placement: NewTabPlacement) -> (label: &'static str)
    ensures
        label@ == match placement {
            NewTabPlacement::Start => "Start"@,
            NewTabPlacement::End => "End"@,
            NewTabPlacement::BeforeSelection => "Before"@,
            NewTabPlacement::AfterSelection => "After"@,
        },
{
    match placement {
        NewTabPlacement::Start => "Start",
        NewTabPlacement::End => "End",
        NewTabPlacement::BeforeSelection => "Before",
        NewTabPlacement::AfterSelection => "After",
    }
}

/// Long label of where opened files go.
pub fn file_open_label(option: FileOpenDisposition) -> (label: &'static str)
    ensures
        label@ == match option {
            FileOpenDisposition::NewTab => "Open in a new tab"@,
            FileOpenDisposition::CurrentTab => "Open in the current tab"@,
        },
{
    match option {
        FileOpenDisposition::NewTab => "Open in a new tab",
        FileOpenDisposition::CurrentTab => "Open in the current tab",
    }
}

/// Short label of where opened files go.
pub fn file_open_pill_label(option: FileOpenDisposition) -> (label: &'static str)
    ensures
        label@ == match option {
            FileOpenDisposition::NewTab => "New tab"@,
            FileOpenDisposition::CurrentTab => "Current tab"@,
        },
{
    match option {
        FileOpenDisposition::NewTab => "New tab",
        FileOpenDisposition::CurrentTab => "Current tab",
    }
}

/// Label of a startup behaviour.
pub fn startup_session_label(option: StartupSessionBehavior) -> (label: &'static str)
    ensures
        label@ == match option {
            StartupSessionBehavior::ContinuePreviousSession => "Continue previous session"@,
            StartupSessionBehavior::StartFreshSession => "Start fresh"@,
        },
{
    match option {
        StartupSessionBehavior::ContinuePreviousSession => "Continue previous session",
        StartupSessionBehavior::StartFreshSession => "Start fresh",
    }
}

} // verus!

verus! {

/// A component of a file path.
#[derive(Clone, Debug, PartialEq, Eq)]
pub enum PathComponent {
    Prefix,
    RootDir,
    CurDir,
    ParentDir,
    Normal(String),
}

/// A name that every platform keeps as one normal path component: not
/// empty, not `.` or `..`, and free of `/`, `\` and `:`.
pub open spec fn plain_name(name: Seq<char>) -> bool {
    &&& name.len() > 0
    &&& name != seq!['.'] && name != seq!['.', '.']
    &&& forall|k: int| 0 <= k < name.len() ==> #[trigger] name[k] != '/' && name[k] != '\\' && name[k] != ':'
}

/// `path` is the plain names `names` joined by single `/`, with at most one
/// `/` in front and none at the end.
pub open spec fn plain_path(path: Seq<char>, names: Seq<Seq<char>>) -> bool {
    &&& forall|i: int| 0 <= i < names.len() ==> plain_name(#[trigger] names[i])
    &&& path == joined(names, '/') || path == seq!['/'] + joined(names, '/')
}

/// `Path::components` of `path`, with each normal component as text
/// (non-Unicode data replaced). How a path splits depends on the platform;
/// what its documentation gives for every platform is stated: names
/// separated by `/` (repeated and trailing separators aside) are its normal
/// components, in order, and `.` and `..` are not. So a path of plain names
/// joined by single `/` has exactly those names as its normal components.
#[verifier::external_body]
fn path_components(path: &str) -> (components: Vec<PathComponent>)
    ensures
        forall|names: Seq<Seq<char>>| #[trigger] plain_path(path@, names) ==> normal_names(components@) == names,
{
    std::path::Path::new(path).components().map(|component| match component {
        std::path::Component::Prefix(_) => PathComponent::Prefix,
        std::path::Component::RootDir => PathComponent::RootDir,
        std::path::Component::CurDir => PathComponent::CurDir,
        std::path::Component::ParentDir => PathComponent::ParentDir,
        std::path::Component::Normal(part) => PathComponent::Normal(part.to_string_lossy().into_owned()),
    }).collect()
}

/// `std::path::MAIN_SEPARATOR`, the platform's primary path separator: `/`
/// on Unix, `\` on Windows, one of the two on every platform.
#[verifier::external_body]
fn main_separator() -> (separator: char)
    ensures
        separator == '/' || separator == '\\',
{
    std::path::MAIN_SEPARATOR
}

/// The normal components (names) among `components`, in order.
pub open spec fn normal_names(components: Seq<PathComponent>) -> Seq<Seq<char>>
    decreases components.len(),
{
    if components.len() == 0 {
        Seq::empty()
    } else {
        let rest = normal_names(components.drop_last());
        match components.last() {
            PathComponent::Normal(name) => rest.push(name@),
            _ => rest,
        }
    }
}

/// `names` joined with `separator` between them.
pub open spec fn joined(names: Seq<Seq<char>>, separator: char) -> Seq<char>
    decreases names.len(),
{
    if names.len() == 0 {
        Seq::empty()
    } else if names.len() == 1 {
        names[0]
    } else {
        joined(names.drop_last(), separator).push(separator) + names.last()
    }
}

/// A path shortened to its last `component_count` names behind "...", or
/// the whole path when it has no more names than that.
pub open spec fn path_tail(components: Seq<PathComponent>, path: Seq<char>, component_count: nat, separator: char) -> Seq<char> {
    names_tail(normal_names(components), path, component_count, separator)
}

/// A path with names `names` shortened to its last `component_count` names
/// behind "...", or the whole path when it has no more names than that.
pub open spec fn names_tail(names: Seq<Seq<char>>, path: Seq<char>, component_count: nat, separator: char) -> Seq<char> {
    if names.len() <= component_count {
        path
    } else {
        "..."@.push(separator) + joined(names.subrange(names.len() - component_count, names.len() as int), separator)
    }
}

/// The tail of a path given its components, the whole path text and the
/// separator to join with.
pub fn path_tail_from_components(
    components: &Vec<PathComponent>,
    path: &str,
    component_count: usize,
    separator: char,
) -> (tail: String)
    ensures
        tail@ == path_tail(components@, path@, component_count as nat, separator),
{
    let mut names: Vec<String> = Vec::new();
    let mut i: usize = 0;
    while i < components.len()
        invariant
            i <= components@.len(),
            names@.len() == normal_names(components@.take(i as int)).len(),
            forall|k: int| 0 <= k < names@.len() ==> #[trigger] names@[k]@ == normal_names(components@.take(i as int))[k],
        decreases components@.len() - i,
    {
        assert(components@.take((i + 1) as int).drop_last() =~= components@.take(i as int));
        match &components[i] {
            PathComponent::Normal(name) => {
                names.push(name.clone());
            },
            _ => {},
        }
        i = i + 1;
    }
    assert(components@.take(i as int) =~= components@);
    let ghost all = normal_names(components@);
    if names.len() <= component_count {
        return path.to_owned();
    }
    let mut tail = String::new();
    crate::text::push_str(&mut tail, "...");
    tail.push(separator);
    let first = names.len() - component_count;
    let mut j = first;
    while j < names.len()
        invariant
            first <= j <= names@.len(),
            names@.len() == all.len(),
            forall|k: int| 0 <= k < names@.len() ==> #[trigger] names@[k]@ == all[k],
            tail@ == "..."@.push(separator) + joined(all.subrange(first as int, j as int), separator),
        decreases names@.len() - j,
    {
        if j > first {
            tail.push(separator);
        }
        crate::text::push_str(&mut tail, names[j].as_str());
        proof {
            let before = all.subrange(first as int, j as int);
            let after = all.subrange(first as int, j + 1);
            assert(after.drop_last() =~= before);
            assert(after.last() == all[j as int]);
        }
        j = j + 1;
    }
    tail
}

/// The path shortened to its last `component_count` names, as the settings
/// page shows file locations: [`path_tail`] of the components this platform
/// splits `path` into, joined with this platform's separator.
pub fn path_tail_text(path: &str, component_count: usize) -> (tail: String)
    ensures
        exists|components: Seq<PathComponent>, separator: char|
            (separator == '/' || separator == '\\')
            && (forall|names: Seq<Seq<char>>| #[trigger] plain_path(path@, names) ==> normal_names(components) == names)
            && tail@ == #[trigger] path_tail(components, path@, component_count as nat, separator),
        forall|names: Seq<Seq<char>>| #[trigger] plain_path(path@, names) ==> exists|separator: char|
            (separator == '/' || separator == '\\')
            && tail@ == #[trigger] names_tail(names, path@, component_count as nat, separator),
{
    let components = path_components(path);
    let separator = main_separator();
    let tail = path_tail_from_components(&components, path, component_count, separator);
    assert(tail@ == path_tail(components@, path@, component_count as nat, separator));
    assert forall|names: Seq<Seq<char>>| #[trigger] plain_path(path@, names) implies exists|sep: char|
        (sep == '/' || sep == '\\')
        && tail@ == #[trigger] names_tail(names, path@, component_count as nat, sep) by {
        assert(normal_names(components@) == names);
        assert(tail@ == names_tail(names, path@, component_count as nat, separator));
    }
    tail
}

} // verus!
