use universal_launcher::commands::{
    command_after_probe, next_spawn_step, plan_open_app, system_command_plan, Os, SpawnStep, SystemPlan,
};
use universal_launcher::desktop::AppInfo;

fn spawn_plan(cmd: &str, os: Os) -> (Vec<(String, Vec<String>)>, String) {
    match system_command_plan(cmd, os) {
        Ok(SystemPlan::Spawn { attempts, message }) => {
            (attempts.into_iter().map(|c| (c.program, c.args)).collect(), message)
        }
        _ => panic!("expected a spawn plan for {}", cmd),
    }
}

#[test]
fn lock_plans() {
    let (a, m) = spawn_plan("lock", Os::Linux);
    assert_eq!(m, "Screen locked");
    assert_eq!(a, vec![
        ("cinnamon-screensaver-command".to_string(), vec!["--lock".to_string()]),
        ("xdg-screensaver".to_string(), vec!["lock".to_string()]),
    ]);
    let (a, _) = spawn_plan("lock", Os::Windows);
    assert_eq!(a[0].0, "rundll32.exe");
    assert_eq!(a[0].1, vec!["user32.dll", "LockWorkStation"]);
}

#[test]
fn other_plans() {
    assert_eq!(spawn_plan("shutdown", Os::Linux), (vec![("shutdown".to_string(), vec!["-h".to_string(), "now".to_string()])], "Shutting down...".to_string()));
    assert_eq!(spawn_plan("reboot", Os::Windows).0[0].1, vec!["/r", "/t", "0"]);
    assert_eq!(spawn_plan("volumeup", Os::Linux).0[0].1, vec!["set-sink-volume", "@DEFAULT_SINK@", "+5%"]);
    assert_eq!(spawn_plan("terminal", Os::Linux).0.len(), 3);
    assert_eq!(spawn_plan("terminal", Os::Windows).0[0].1, vec!["/c", "start", "cmd"]);
    assert_eq!(spawn_plan("wifi", Os::Windows).1, "Wi-Fi settings opened");
    assert_eq!(spawn_plan("brightnessdown", Os::Linux).0[0].1, vec!["set", "10%-"]);
}

#[test]
fn unknown_command() {
    match system_command_plan("dance", Os::Linux) {
        Err(e) => assert_eq!(e, "Unknown command"),
        Ok(_) => panic!("unknown command accepted"),
    }
}

#[test]
fn wifi_probe() {
    match system_command_plan("wifi", Os::Linux) {
        Ok(SystemPlan::Probe(p)) => {
            assert_eq!(p.probe.program, "nmcli");
            let (c, m) = command_after_probe(&p, "enabled\n");
            assert_eq!(c.args, vec!["radio", "wifi", "off"]);
            assert_eq!(m, "Wi-Fi disabled");
            let (c, m) = command_after_probe(&p, "disabled\n");
            assert_eq!(c.args, vec!["radio", "wifi", "on"]);
            assert_eq!(m, "Wi-Fi enabled");
            let (c, m) = command_after_probe(&p, "off\n");
            assert_eq!(c.args, vec!["radio", "wifi", "on"]);
            assert_eq!(m, "Wi-Fi enabled");
        }
        _ => panic!("expected a probe"),
    }
    match system_command_plan("bluetooth", Os::Linux) {
        Ok(SystemPlan::Probe(p)) => {
            let (c, m) = command_after_probe(&p, "0: hci0\n\tSoft blocked: yes\n");
            assert_eq!(c.args, vec!["unblock", "bluetooth"]);
            assert_eq!(m, "Bluetooth enabled");
            let (_, m) = command_after_probe(&p, "\tSoft blocked: no\n");
            assert_eq!(m, "Bluetooth disabled");
        }
        _ => panic!("expected a probe"),
    }
}

#[test]
fn attempts_in_order() {
    match next_spawn_step(3, 0, Err("not found".to_string()), "ok") {
        SpawnStep::Attempt(1) => {}
        _ => panic!("should try the next attempt"),
    }
    match next_spawn_step(3, 2, Err("last".to_string()), "ok") {
        SpawnStep::Failed(e) => assert_eq!(e, "last"),
        _ => panic!("should fail with the last error"),
    }
    match next_spawn_step(3, 1, Ok(()), "Terminal opened") {
        SpawnStep::Started(m) => assert_eq!(m, "Terminal opened"),
        _ => panic!("should report the message"),
    }
}

#[test]
fn open_app_plans() {
    let app = AppInfo { name: "GIMP".to_string(), path: "/a/gimp.desktop".to_string(), icon: "gimp".to_string(), command: "gimp-2.10  --new-instance".to_string() };
    let plan = plan_open_app(Some(app), Some("gimp.desktop".to_string()));
    assert_eq!(plan.recent.as_deref(), Some("GIMP"));
    let c = plan.launch.unwrap();
    assert_eq!(c.program, "gimp-2.10");
    assert_eq!(c.args, vec!["--new-instance"]);
    let app = AppInfo { name: "X".to_string(), path: "/a/x.desktop".to_string(), icon: "x".to_string(), command: String::new() };
    let plan = plan_open_app(Some(app), Some("x.desktop".to_string()));
    let c = plan.launch.unwrap();
    assert_eq!(c.program, "gtk-launch");
    assert_eq!(c.args, vec!["x.desktop"]);
    let plan = plan_open_app(None, None);
    assert!(plan.recent.is_none());
    assert!(plan.launch.is_none());
}

#[test]
fn driving_attempts_reports_last_error_or_message() {
    fn drive(outcomes: &[Result<(), &str>]) -> Result<String, String> {
        let mut tried = 0;
        loop {
            let o = outcomes[tried].map_err(|e| e.to_string());
            match next_spawn_step(outcomes.len(), tried, o, "done") {
                SpawnStep::Attempt(n) => tried = n,
                SpawnStep::Started(m) => return Ok(m),
                SpawnStep::Failed(e) => return Err(e),
            }
        }
    }
    assert_eq!(drive(&[Err("a"), Err("b"), Err("c")]), Err("c".to_string()));
    assert_eq!(drive(&[Err("a"), Ok(()), Err("c")]), Ok("done".to_string()));
    assert_eq!(drive(&[Ok(())]), Ok("done".to_string()));
}
