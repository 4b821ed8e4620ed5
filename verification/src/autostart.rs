//! Autostart through a scheduled task: the arguments that create the task,
//! the check whether an existing task must be refreshed, and the migration
//! from the legacy registry entry, written as a state machine whose actions
//! the caller performs.

use crate::text::views;
use vstd::prelude::*;

verus! {

// ---------------------------------------------------------------------------
// Scheduled task arguments
// ---------------------------------------------------------------------------

/// The `schtasks` arguments that (re)create the autostart task for the
/// executable at `exe`: run at logon, 30 seconds late, interactively, with
/// the highest privileges, replacing any task of the same name.
pub open spec fn schtask_create_args_spec(exe: Seq<char>) -> Seq<Seq<char>> {
    seq![
        "/create"@,
        "/tn"@,
        "MXU"@,
        "/tr"@,
        "\""@ + exe + "\" --autostart"@,
        "/sc"@,
        "onlogon"@,
        "/delay"@,
        "0000:30"@,
        "/it"@,
        "/rl"@,
        "highest"@,
        "/f"@,
    ]
}

/// Builds the `schtasks` arguments that create the autostart task.
pub fn schtask_create_args(exe: &str) -> (r: Vec<String>)
    ensures
        views(r@) == schtask_create_args_spec(exe@),
{
    let mut command = String::new();
    command.append("\"");
    command.append(exe);
    command.append("\" --autostart");
    let mut r: Vec<String> = Vec::new();
    r.push("/create".to_owned());
    r.push("/tn".to_owned());
    r.push("MXU".to_owned());
    r.push("/tr".to_owned());
    r.push(command);
    r.push("/sc".to_owned());
    r.push("onlogon".to_owned());
    r.push("/delay".to_owned());
    r.push("0000:30".to_owned());
    r.push("/it".to_owned());
    r.push("/rl".to_owned());
    r.push("highest".to_owned());
    r.push("/f".to_owned());
    assert(views(r@) =~= schtask_create_args_spec(exe@));
    r
}

// ---------------------------------------------------------------------------
// Does the existing task need a refresh?
// ---------------------------------------------------------------------------

/// Characters that `regex::escape` prefixes with a backslash.
pub open spec fn is_regex_meta(c: char) -> bool {
    c == '\\' || c == '.' || c == '+' || c == '*' || c == '?' || c == '(' || c == ')' || c == '|'
        || c == '[' || c == ']' || c == '{' || c == '}' || c == '^' || c == '$' || c == '#' || c
        == '&' || c == '-' || c == '~'
}

/// `s` with every regex meta character prefixed by a backslash.
pub open spec fn regex_escaped(s: Seq<char>) -> Seq<char>
    decreases s.len(),
{
    if s.len() == 0 {
        Seq::empty()
    } else {
        let c = s.last();
        regex_escaped(s.drop_last()) + if is_regex_meta(c) {
            seq!['\\', c]
        } else {
            seq![c]
        }
    }
}

/// Whether `regex::Regex::new` accepts `pattern`.
pub uninterp spec fn regex_compiles(pattern: Seq<char>) -> bool;

/// Whether the regex compiled from `pattern` matches somewhere in `haystack`
/// (`regex::Regex::is_match`).
pub uninterp spec fn regex_finds_match(pattern: Seq<char>, haystack: Seq<char>) -> bool;

/// `regex::escape`: every meta character of `text` gets a backslash in
/// front; other characters are copied. The contract states exactly that.
#[verifier::external_body]
fn regex_escape(text: &str) -> (r: String)
    ensures
        r@ == regex_escaped(text@),
{
    regex::escape(text)
}

/// `regex::Regex::new(pattern)` followed by `is_match(haystack)`: `None`
/// when the pattern does not compile, else whether it matches. Both results
/// are stated through the names `regex_compiles` and `regex_finds_match`.
#[verifier::external_body]
fn regex_search(pattern: &str, haystack: &str) -> (r: Option<bool>)
    ensures
        r is Some == regex_compiles(pattern@),
        r matches Some(b) ==> b == regex_finds_match(pattern@, haystack@),
{
    match regex::Regex::new(pattern) {
        Ok(re) => Some(re.is_match(haystack)),
        Err(_) => None,
    }
}

/// The pattern that finds `<tag>expected</tag>` in task XML, ignoring case,
/// with any white space (line breaks included) around the parts.
pub open spec fn tag_pattern_spec(tag: Seq<char>, expected: Seq<char>) -> Seq<char> {
    "(?is)<\\s*"@ + regex_escaped(tag) + "\\s*>\\s*"@ + regex_escaped(expected)
        + "\\s*<\\s*/\\s*"@ + regex_escaped(tag) + "\\s*>"@
}

/// Whether `xml` holds the element `tag` with the text `expected`: the
/// pattern compiles and matches.
pub open spec fn tag_found(xml: Seq<char>, tag: Seq<char>, expected: Seq<char>) -> bool {
    let p = tag_pattern_spec(tag, expected);
    regex_compiles(p) && regex_finds_match(p, xml)
}

/// Builds the pattern that finds `<tag>expected</tag>`.
pub fn tag_pattern(tag: &str, expected: &str) -> (r: String)
    ensures
        r@ == tag_pattern_spec(tag@, expected@),
{
    let tag_e = regex_escape(tag);
    let expected_e = regex_escape(expected);
    let mut p = String::new();
    p.append("(?is)<\\s*");
    p.append(tag_e.as_str());
    p.append("\\s*>\\s*");
    p.append(expected_e.as_str());
    p.append("\\s*<\\s*/\\s*");
    p.append(tag_e.as_str());
    p.append("\\s*>");
    assert(p@ =~= tag_pattern_spec(tag@, expected@));
    p
}

/// Whether `xml` holds `<tag>expected</tag>` (a pattern that does not
/// compile counts as no match).
pub fn xml_tag_equals(xml: &str, tag: &str, expected: &str) -> (r: bool)
    ensures
        r == tag_found(xml@, tag@, expected@),
{
    let pattern = tag_pattern(tag, expected);
    match regex_search(pattern.as_str(), xml) {
        Some(b) => b,
        None => false,
    }
}

/// A task needs a refresh when it is enabled but does not both log on
/// interactively and start 30 seconds late.
pub open spec fn refresh_needed(enabled: bool, interactive_logon: bool, delayed_30s: bool) -> bool {
    enabled && !(interactive_logon && delayed_30s)
}

/// A disabled task never needs a refresh; an enabled one needs it exactly
/// when it lacks the interactive logon or lacks the 30-second delay (so an
/// enabled task that lacks both needs it too).
pub proof fn law_refresh_needed_when_outdated(enabled: bool, interactive_logon: bool, delayed_30s: bool)
    ensures
        !enabled ==> !refresh_needed(enabled, interactive_logon, delayed_30s),
        enabled ==> (refresh_needed(enabled, interactive_logon, delayed_30s) <==> (!interactive_logon
            || !delayed_30s)),
        enabled && !interactive_logon ==> refresh_needed(enabled, interactive_logon, delayed_30s),
        enabled && !delayed_30s ==> refresh_needed(enabled, interactive_logon, delayed_30s),
        interactive_logon && delayed_30s ==> !refresh_needed(enabled, interactive_logon, delayed_30s),
{
}

/// Decides, from the three facts read from the task, whether it needs a
/// refresh.
pub fn refresh_decision(enabled: bool, interactive_logon: bool, delayed_30s: bool) -> (r: bool)
    ensures
        r == refresh_needed(enabled, interactive_logon, delayed_30s),
{
    if !enabled {
        return false;
    }
    !(interactive_logon && delayed_30s)
}

/// Whether the autostart task needs a refresh, from the XML that querying
/// it produced (`None` when the query failed: then no refresh).
pub fn schtask_autostart_needs_refresh(task_xml: Option<&str>) -> (r: bool)
    ensures
        r == match task_xml {
            None => false,
            Some(x) => refresh_needed(
                tag_found(x@, "Enabled"@, "true"@),
                tag_found(x@, "LogonType"@, "InteractiveToken"@),
                tag_found(x@, "Delay"@, "PT30S"@),
            ),
        },
{
    match task_xml {
        None => false,
        Some(xml) => {
            let enabled = xml_tag_equals(xml, "Enabled", "true");
            let interactive = xml_tag_equals(xml, "LogonType", "InteractiveToken");
            let delayed = xml_tag_equals(xml, "Delay", "PT30S");
            refresh_decision(enabled, interactive, delayed)
        },
    }
}

// ---------------------------------------------------------------------------
// Migration from the legacy registry entry
// ---------------------------------------------------------------------------

/// Where the migration stands; each stage but `Start` and `Done` waits for
/// the reply to the action issued last.
#[derive(Debug, Clone, Copy, PartialEq, Eq, Structural)]
pub enum MigrationStage {
    Start,
    AwaitLegacyCheck,
    AwaitMigrationCreate,
    AwaitLegacyRemoval,
    AwaitRefreshCheck,
    AwaitRefreshCreate,
    Done,
}

/// What the caller must do next, and what it replies afterwards.
#[derive(Debug, Clone, Copy, PartialEq, Eq, Structural)]
pub enum MigrationAction {
    /// Reply whether a legacy registry autostart entry exists.
    CheckLegacyRegistry,
    /// Create the scheduled task; reply whether that succeeded.
    CreateScheduledTask,
    /// Remove the legacy registry entries; the reply is not used.
    RemoveLegacyRegistry,
    /// Reply whether the scheduled task needs a refresh.
    CheckTaskNeedsRefresh,
    /// Nothing is left to do.
    Finish,
}

/// One step of the migration: from `stage` and the reply to the last action
/// to the next stage and the next action.
pub open spec fn migration_step(stage: MigrationStage, reply: bool) -> (
    MigrationStage,
    MigrationAction,
) {
    match stage {
        MigrationStage::Start => (
            MigrationStage::AwaitLegacyCheck,
            MigrationAction::CheckLegacyRegistry,
        ),
        MigrationStage::AwaitLegacyCheck => if reply {
            (MigrationStage::AwaitMigrationCreate, MigrationAction::CreateScheduledTask)
        } else {
            (MigrationStage::AwaitRefreshCheck, MigrationAction::CheckTaskNeedsRefresh)
        },
        MigrationStage::AwaitMigrationCreate => if reply {
            (MigrationStage::AwaitLegacyRemoval, MigrationAction::RemoveLegacyRegistry)
        } else {
            (MigrationStage::AwaitRefreshCheck, MigrationAction::CheckTaskNeedsRefresh)
        },
        MigrationStage::AwaitLegacyRemoval => (
            MigrationStage::AwaitRefreshCheck,
            MigrationAction::CheckTaskNeedsRefresh,
        ),
        MigrationStage::AwaitRefreshCheck => if reply {
            (MigrationStage::AwaitRefreshCreate, MigrationAction::CreateScheduledTask)
        } else {
            (MigrationStage::Done, MigrationAction::Finish)
        },
        MigrationStage::AwaitRefreshCreate => (MigrationStage::Done, MigrationAction::Finish),
        MigrationStage::Done => (MigrationStage::Done, MigrationAction::Finish),
    }
}

/// Moves the migration of the legacy registry autostart entry one step:
/// the legacy entry is removed only after the scheduled task that replaces
/// it was created, and afterwards an existing task that needs a refresh is
/// created again.
pub fn migrate_legacy_autostart(stage: MigrationStage, reply: bool) -> (r: (
    MigrationStage,
    MigrationAction,
))
    ensures
        r == migration_step(stage, reply),
{
    match stage {
        MigrationStage::Start => (MigrationStage::AwaitLegacyCheck, MigrationAction::CheckLegacyRegistry),
        MigrationStage::AwaitLegacyCheck => if reply {
            (MigrationStage::AwaitMigrationCreate, MigrationAction::CreateScheduledTask)
        } else {
            (MigrationStage::AwaitRefreshCheck, MigrationAction::CheckTaskNeedsRefresh)
        },
        MigrationStage::AwaitMigrationCreate => if reply {
            (MigrationStage::AwaitLegacyRemoval, MigrationAction::RemoveLegacyRegistry)
        } else {
            (MigrationStage::AwaitRefreshCheck, MigrationAction::CheckTaskNeedsRefresh)
        },
        MigrationStage::AwaitLegacyRemoval => (
            MigrationStage::AwaitRefreshCheck,
            MigrationAction::CheckTaskNeedsRefresh,
        ),
        MigrationStage::AwaitRefreshCheck => if reply {
            (MigrationStage::AwaitRefreshCreate, MigrationAction::CreateScheduledTask)
        } else {
            (MigrationStage::Done, MigrationAction::Finish)
        },
        MigrationStage::AwaitRefreshCreate => (MigrationStage::Done, MigrationAction::Finish),
        MigrationStage::Done => (MigrationStage::Done, MigrationAction::Finish),
    }
}

/// The answers the outside world gives during one migration.
pub ghost struct MigrationWorld {
    pub has_legacy: bool,
    pub migration_create_ok: bool,
    pub needs_refresh: bool,
}

/// The reply that `world` gives while the migration waits in `stage`.
pub open spec fn world_reply(world: MigrationWorld, stage: MigrationStage) -> bool {
    match stage {
        MigrationStage::AwaitLegacyCheck => world.has_legacy,
        MigrationStage::AwaitMigrationCreate => world.migration_create_ok,
        MigrationStage::AwaitRefreshCheck => world.needs_refresh,
        _ => false,
    }
}

/// The actions issued when the migration runs from `stage` against
/// `world`, for at most `fuel` steps, up to and including `Finish`.
pub open spec fn migration_trace(world: MigrationWorld, stage: MigrationStage, fuel: nat) -> Seq<
    MigrationAction,
>
    decreases fuel,
{
    if fuel == 0 {
        Seq::empty()
    } else {
        let (next, action) = migration_step(stage, world_reply(world, stage));
        if action == MigrationAction::Finish {
            seq![action]
        } else {
            seq![action] + migration_trace(world, next, (fuel - 1) as nat)
        }
    }
}

/// What the migration does in `world`: check for the legacy entry; if there
/// is one, create the task and, only if that worked, remove the legacy
/// entry; then check whether the task needs a refresh and, if so, create it
/// again; then finish.
pub open spec fn migration_plan(world: MigrationWorld) -> Seq<MigrationAction> {
    let migrate: Seq<MigrationAction> = if world.has_legacy {
        if world.migration_create_ok {
            seq![MigrationAction::CreateScheduledTask, MigrationAction::RemoveLegacyRegistry]
        } else {
            seq![MigrationAction::CreateScheduledTask]
        }
    } else {
        Seq::empty()
    };
    let refresh: Seq<MigrationAction> = if world.needs_refresh {
        seq![MigrationAction::CreateScheduledTask]
    } else {
        Seq::empty()
    };
    seq![MigrationAction::CheckLegacyRegistry] + migrate + seq![
        MigrationAction::CheckTaskNeedsRefresh,
    ] + refresh + seq![MigrationAction::Finish]
}

/// Run from the start, the migration issues exactly the plan, whatever the
/// world answers, and it finishes within six steps.
pub proof fn law_migration_follows_plan(world: MigrationWorld)
    ensures
        migration_trace(world, MigrationStage::Start, 6) == migration_plan(world),
{
    reveal_with_fuel(migration_trace, 7);
    assert(migration_trace(world, MigrationStage::Start, 6) =~= migration_plan(world));
}

/// The legacy entry is removed only right after the scheduled task was
/// created successfully.
pub proof fn law_remove_only_after_create(stage: MigrationStage, reply: bool)
    ensures
        migration_step(stage, reply).1 == MigrationAction::RemoveLegacyRegistry ==> (stage
            == MigrationStage::AwaitMigrationCreate && reply),
{
}

/// Once done, the migration stays done and asks for nothing more.
pub proof fn law_done_is_final(reply: bool)
    ensures
        migration_step(MigrationStage::Done, reply) == (
            MigrationStage::Done,
            MigrationAction::Finish,
        ),
{
}

} // verus!
