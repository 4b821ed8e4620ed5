use mxu::autostart::{
    migrate_legacy_autostart, refresh_decision, schtask_autostart_needs_refresh, schtask_create_args,
    tag_pattern, xml_tag_equals, MigrationAction, MigrationStage,
};

const GOOD_XML: &str = "<Task>\n  <Triggers><LogonTrigger>\n    <Enabled>true</Enabled>\n    <Delay>PT30S</Delay>\n  </LogonTrigger></Triggers>\n  <Principals><Principal>\n    <LogonType>InteractiveToken</LogonType>\n  </Principal></Principals>\n</Task>";

#[test]
fn create_args_quote_the_executable() {
    let a = schtask_create_args("C:\\Program Files\\MXU\\mxu.exe");
    let expected: Vec<String> = [
        "/create", "/tn", "MXU", "/tr", "\"C:\\Program Files\\MXU\\mxu.exe\" --autostart", "/sc", "onlogon",
        "/delay", "0000:30", "/it", "/rl", "highest", "/f",
    ]
    .iter()
    .map(|s| s.to_string())
    .collect();
    assert_eq!(a, expected);
}

#[test]
fn tag_pattern_text() {
    assert_eq!(tag_pattern("Enabled", "true"), r"(?is)<\s*Enabled\s*>\s*true\s*<\s*/\s*Enabled\s*>");
    assert_eq!(tag_pattern("a.b", "x-y"), r"(?is)<\s*a\.b\s*>\s*x\-y\s*<\s*/\s*a\.b\s*>");
}

#[test]
fn tag_match_ignores_case_and_space() {
    assert!(xml_tag_equals("< enabled >\n TRUE \n</ Enabled >", "Enabled", "true"));
    assert!(!xml_tag_equals("<Enabled>false</Enabled>", "Enabled", "true"));
    assert!(!xml_tag_equals("<Delay>PT30S</Delay>", "Del.y", "PT30S"));
}

#[test]
fn up_to_date_task_needs_no_refresh() {
    assert!(!schtask_autostart_needs_refresh(Some(GOOD_XML)));
}

#[test]
fn outdated_task_needs_refresh() {
    let xml = GOOD_XML.replace("PT30S", "PT0S");
    assert!(schtask_autostart_needs_refresh(Some(&xml)));
    let xml = GOOD_XML.replace("InteractiveToken", "Password");
    assert!(schtask_autostart_needs_refresh(Some(&xml)));
}

#[test]
fn disabled_or_missing_task_needs_no_refresh() {
    let xml = GOOD_XML.replace("<Enabled>true", "<Enabled>false").replace("PT30S", "PT0S");
    assert!(!schtask_autostart_needs_refresh(Some(&xml)));
    assert!(!schtask_autostart_needs_refresh(None));
}

#[test]
fn refresh_decision_table() {
    assert!(!refresh_decision(false, false, false));
    assert!(refresh_decision(true, false, true));
    assert!(refresh_decision(true, true, false));
    assert!(!refresh_decision(true, true, true));
}

fn run(has_legacy: bool, create_ok: bool, needs_refresh: bool) -> Vec<MigrationAction> {
    let mut stage = MigrationStage::Start;
    let mut reply = false;
    let mut actions = Vec::new();
    let mut first_create = true;
    for _ in 0..10 {
        let (next, action) = migrate_legacy_autostart(stage, reply);
        stage = next;
        actions.push(action);
        reply = match action {
            MigrationAction::CheckLegacyRegistry => has_legacy,
            MigrationAction::CreateScheduledTask => {
                let r = if first_create { create_ok } else { true };
                first_create = false;
                r
            }
            MigrationAction::RemoveLegacyRegistry => false,
            MigrationAction::CheckTaskNeedsRefresh => needs_refresh,
            MigrationAction::Finish => break,
        };
    }
    assert_eq!(stage, MigrationStage::Done);
    actions
}

#[test]
fn migration_with_legacy_entry() {
    assert_eq!(
        run(true, true, false),
        vec![MigrationAction::CheckLegacyRegistry, MigrationAction::CreateScheduledTask, MigrationAction::RemoveLegacyRegistry, MigrationAction::CheckTaskNeedsRefresh, MigrationAction::Finish]
    );
    assert_eq!(run(true, false, false), vec![MigrationAction::CheckLegacyRegistry, MigrationAction::CreateScheduledTask, MigrationAction::CheckTaskNeedsRefresh, MigrationAction::Finish]);
}

#[test]
fn migration_without_legacy_entry() {
    assert_eq!(run(false, true, false), vec![MigrationAction::CheckLegacyRegistry, MigrationAction::CheckTaskNeedsRefresh, MigrationAction::Finish]);
    assert_eq!(
        run(false, true, true),
        vec![MigrationAction::CheckLegacyRegistry, MigrationAction::CheckTaskNeedsRefresh, MigrationAction::CreateScheduledTask, MigrationAction::Finish]
    );
}

#[test]
fn migration_done_stays_done() {
    assert_eq!(
        migrate_legacy_autostart(MigrationStage::Done, true),
        (MigrationStage::Done, MigrationAction::Finish)
    );
}
