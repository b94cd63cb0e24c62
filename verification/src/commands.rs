use vstd::prelude::*;

use crate::desktop::{AppInfo, AppInfoView};
use crate::search::{
    app_hits, at_most, calculator_hits, command_hits, file_hits, latest, recent_hits,
    search_candidates, system_hits, system_table, web_hits, web_result, youtube_result, HitView,
};
use crate::state::FileEntryView;
use crate::state::texts;
use crate::text::{
    chars_of, contains, contains_seq, lowercase_of, same_text, string_of, views, words_of, words_seq,
};

verus! {

/// The operating systems the launcher knows how to drive.
#[derive(Clone, Copy)]
pub enum Os {
    Linux,
    Windows,
}

/// A program to start, with its arguments.
pub struct Command {
    pub program: String,
    pub args: Vec<String>,
}

/// The texts that a `Command` holds.
pub struct CommandView {
    pub program: Seq<char>,
    pub args: Seq<Seq<char>>,
}

/// A command with the given program and arguments.
pub open spec fn command_view(program: Seq<char>, args: Seq<Seq<char>>) -> CommandView {
    CommandView { program, args }
}

impl View for Command {
    type V = CommandView;

    open spec fn view(&self) -> CommandView {
        CommandView { program: self.program@, args: texts(self.args@) }
    }
}

/// The views of a sequence of commands.
pub open spec fn command_views(s: Seq<Command>) -> Seq<CommandView> {
    s.map_values(|c: Command| c@)
}

fn push_command(v: &mut Vec<Command>, c: Command)
    ensures
        command_views(final(v)@) == command_views(old(v)@).push(c@),
{
    let ghost before = v@;
    let ghost cv = c@;
    v.push(c);
    assert(command_views(v@) =~= command_views(before).push(cv));
}

/// A command whose effect depends on the state it finds: run `probe`, then start
/// `if_found` when the probe's output contains `needle`, `otherwise` when it does not.
pub struct ProbePlan {
    pub probe: Command,
    pub needle: String,
    pub if_found: Command,
    pub found_message: String,
    pub otherwise: Command,
    pub otherwise_message: String,
}

/// How to carry out a system command.
pub enum SystemPlan {
    /// Start the first of `attempts` that can be started; report `message` then, or the
    /// error of the last attempt when none can.
    Spawn { attempts: Vec<Command>, message: String },
    /// Probe the system first.
    Probe(ProbePlan),
}

/// What a `SystemPlan` holds.
pub enum PlanView {
    Spawn(Seq<CommandView>, Seq<char>),
    Probe(CommandView, Seq<char>, CommandView, Seq<char>, CommandView, Seq<char>),
}

impl View for SystemPlan {
    type V = PlanView;

    open spec fn view(&self) -> PlanView {
        match self {
            SystemPlan::Spawn { attempts, message } => PlanView::Spawn(
                command_views(attempts@),
                message@,
            ),
            SystemPlan::Probe(p) => PlanView::Probe(
                p.probe@,
                p.needle@,
                p.if_found@,
                p.found_message@,
                p.otherwise@,
                p.otherwise_message@,
            ),
        }
    }
}

/// The plan for `lock`.
pub open spec fn lock_plan(os: Os) -> PlanView {
    match os {
        Os::Linux => PlanView::Spawn(seq![command_view("cinnamon-screensaver-command"@, seq!["--lock"@]), command_view("xdg-screensaver"@, seq!["lock"@])], "Screen locked"@),
        Os::Windows => PlanView::Spawn(seq![command_view("rundll32.exe"@, seq!["user32.dll"@, "LockWorkStation"@])], "Screen locked"@),
    }
}

/// The plan for `shutdown`.
pub open spec fn shutdown_plan(os: Os) -> PlanView {
    match os {
        Os::Linux => PlanView::Spawn(seq![command_view("shutdown"@, seq!["-h"@, "now"@])], "Shutting down..."@),
        Os::Windows => PlanView::Spawn(seq![command_view("shutdown"@, seq!["/s"@, "/t"@, "0"@])], "Shutting down..."@),
    }
}

/// The plan for `reboot`.
pub open spec fn reboot_plan(os: Os) -> PlanView {
    match os {
        Os::Linux => PlanView::Spawn(seq![command_view("shutdown"@, seq!["-r"@, "now"@])], "Rebooting..."@),
        Os::Windows => PlanView::Spawn(seq![command_view("shutdown"@, seq!["/r"@, "/t"@, "0"@])], "Rebooting..."@),
    }
}

/// The plan for `sleep`.
pub open spec fn sleep_plan(os: Os) -> PlanView {
    match os {
        Os::Linux => PlanView::Spawn(seq![command_view("systemctl"@, seq!["suspend"@])], "Sleeping..."@),
        Os::Windows => PlanView::Spawn(seq![command_view("rundll32.exe"@, seq!["powrprof.dll"@, "SetSuspendState"@, "0"@, "1"@, "0"@])], "Sleeping..."@),
    }
}

/// The plan for `logout`.
pub open spec fn logout_plan(os: Os) -> PlanView {
    match os {
        Os::Linux => PlanView::Spawn(seq![command_view("cinnamon-session-quit"@, seq!["--logout"@]), command_view("gnome-session-quit"@, seq!["--logout"@])], "Logging out..."@),
        Os::Windows => PlanView::Spawn(seq![command_view("shutdown"@, seq!["/l"@])], "Logging out..."@),
    }
}

/// The plan for `settings`.
pub open spec fn settings_plan(os: Os) -> PlanView {
    match os {
        Os::Linux => PlanView::Spawn(seq![command_view("cinnamon-settings"@, Seq::empty()), command_view("gnome-control-center"@, Seq::empty())], "Settings opened"@),
        Os::Windows => PlanView::Spawn(seq![command_view("ms-settings:"@, Seq::empty()), command_view("start"@, seq!["ms-settings:"@])], "Settings opened"@),
    }
}

/// The plan for `volumeup`.
pub open spec fn volumeup_plan(os: Os) -> PlanView {
    match os {
        Os::Linux => PlanView::Spawn(seq![command_view("pactl"@, seq!["set-sink-volume"@, "@DEFAULT_SINK@"@, "+5%"@])], "Volume up"@),
        Os::Windows => PlanView::Spawn(seq![command_view("powershell"@, seq!["-Command"@, "(New-Object -ComObject WScript.Shell).SendKeys([char]175)"@])], "Volume up"@),
    }
}

/// The plan for `volumedown`.
pub open spec fn volumedown_plan(os: Os) -> PlanView {
    match os {
        Os::Linux => PlanView::Spawn(seq![command_view("pactl"@, seq!["set-sink-volume"@, "@DEFAULT_SINK@"@, "-5%"@])], "Volume down"@),
        Os::Windows => PlanView::Spawn(seq![command_view("powershell"@, seq!["-Command"@, "(New-Object -ComObject WScript.Shell).SendKeys([char]174)"@])], "Volume down"@),
    }
}

/// The plan for `volumemute`.
pub open spec fn volumemute_plan(os: Os) -> PlanView {
    match os {
        Os::Linux => PlanView::Spawn(seq![command_view("pactl"@, seq!["set-sink-mute"@, "@DEFAULT_SINK@"@, "toggle"@])], "Mute toggled"@),
        Os::Windows => PlanView::Spawn(seq![command_view("powershell"@, seq!["-Command"@, "(New-Object -ComObject WScript.Shell).SendKeys([char]173)"@])], "Mute toggled"@),
    }
}

/// The plan for `brightnessup`.
pub open spec fn brightnessup_plan(os: Os) -> PlanView {
    match os {
        Os::Linux => PlanView::Spawn(seq![command_view("brightnessctl"@, seq!["set"@, "+10%"@])], "Brightness up"@),
        Os::Windows => PlanView::Spawn(seq![command_view("powershell"@, seq!["-Command"@, "(Get-WmiObject -Namespace root/WMI -Class WmiMonitorBrightnessMethods).WmiSetBrightness(1, [Math]::Min((Get-WmiObject -Namespace root/WMI -Class WmiMonitorBrightness).CurrentBrightness + 10, 100))"@])], "Brightness up"@),
    }
}

/// The plan for `brightnessdown`.
pub open spec fn brightnessdown_plan(os: Os) -> PlanView {
    match os {
        Os::Linux => PlanView::Spawn(seq![command_view("brightnessctl"@, seq!["set"@, "10%-"@])], "Brightness down"@),
        Os::Windows => PlanView::Spawn(seq![command_view("powershell"@, seq!["-Command"@, "(Get-WmiObject -Namespace root/WMI -Class WmiMonitorBrightnessMethods).WmiSetBrightness(1, [Math]::Max((Get-WmiObject -Namespace root/WMI -Class WmiMonitorBrightness).CurrentBrightness - 10, 0))"@])], "Brightness down"@),
    }
}

/// The plan for `wifi`.
pub open spec fn wifi_plan(os: Os) -> PlanView {
    match os {
        Os::Linux => PlanView::Probe(command_view("nmcli"@, seq!["radio"@, "wifi"@]), "enabled"@, command_view("nmcli"@, seq!["radio"@, "wifi"@, "off"@]), "Wi-Fi disabled"@, command_view("nmcli"@, seq!["radio"@, "wifi"@, "on"@]), "Wi-Fi enabled"@),
        Os::Windows => PlanView::Spawn(seq![command_view("explorer"@, seq!["ms-settings:network-wifi"@])], "Wi-Fi settings opened"@),
    }
}

/// The plan for `bluetooth`.
pub open spec fn bluetooth_plan(os: Os) -> PlanView {
    match os {
        Os::Linux => PlanView::Probe(command_view("rfkill"@, seq!["list"@, "bluetooth"@]), "Soft blocked: yes"@, command_view("rfkill"@, seq!["unblock"@, "bluetooth"@]), "Bluetooth enabled"@, command_view("rfkill"@, seq!["block"@, "bluetooth"@]), "Bluetooth disabled"@),
        Os::Windows => PlanView::Spawn(seq![command_view("explorer"@, seq!["ms-settings:bluetooth"@])], "Bluetooth settings opened"@),
    }
}

/// The plan for `screenshot`.
pub open spec fn screenshot_plan(os: Os) -> PlanView {
    match os {
        Os::Linux => PlanView::Spawn(seq![command_view("gnome-screenshot"@, seq!["--interactive"@]), command_view("xfce4-screenshooter"@, Seq::empty())], "Screenshot taken"@),
        Os::Windows => PlanView::Spawn(seq![command_view("snippingtool"@, Seq::empty()), command_view("explorer"@, seq!["ms-screenclip:"@])], "Screenshot taken"@),
    }
}

/// The plan for `taskmanager`.
pub open spec fn taskmanager_plan(os: Os) -> PlanView {
    match os {
        Os::Linux => PlanView::Spawn(seq![command_view("gnome-system-monitor"@, Seq::empty()), command_view("xfce4-taskmanager"@, Seq::empty()), command_view("htop"@, seq!["-t"@])], "Task manager opened"@),
        Os::Windows => PlanView::Spawn(seq![command_view("taskmgr"@, Seq::empty())], "Task manager opened"@),
    }
}

/// The plan for `calculator`.
pub open spec fn calculator_plan(os: Os) -> PlanView {
    match os {
        Os::Linux => PlanView::Spawn(seq![command_view("gnome-calculator"@, Seq::empty()), command_view("galculator"@, Seq::empty())], "Calculator opened"@),
        Os::Windows => PlanView::Spawn(seq![command_view("calc"@, Seq::empty())], "Calculator opened"@),
    }
}

/// The plan for `filemanager`.
pub open spec fn filemanager_plan(os: Os) -> PlanView {
    match os {
        Os::Linux => PlanView::Spawn(seq![command_view("nemo"@, Seq::empty()), command_view("nautilus"@, Seq::empty()), command_view("thunar"@, Seq::empty())], "File manager opened"@),
        Os::Windows => PlanView::Spawn(seq![command_view("explorer"@, Seq::empty())], "File manager opened"@),
    }
}

/// The plan for `terminal`.
pub open spec fn terminal_plan(os: Os) -> PlanView {
    match os {
        Os::Linux => PlanView::Spawn(seq![command_view("gnome-terminal"@, Seq::empty()), command_view("xfce4-terminal"@, Seq::empty()), command_view("x-terminal-emulator"@, Seq::empty())], "Terminal opened"@),
        Os::Windows => PlanView::Spawn(seq![command_view("cmd"@, seq!["/c"@, "start"@, "cmd"@]), command_view("powershell"@, Seq::empty())], "Terminal opened"@),
    }
}


/// The plan for the system command named `cmd` on `os`; none for an unknown name.
pub open spec fn system_plan_spec(cmd: Seq<char>, os: Os) -> Option<PlanView> {
    if cmd == "lock"@ {
        Some(lock_plan(os))
    } else if cmd == "shutdown"@ {
        Some(shutdown_plan(os))
    } else if cmd == "reboot"@ {
        Some(reboot_plan(os))
    } else if cmd == "sleep"@ {
        Some(sleep_plan(os))
    } else if cmd == "logout"@ {
        Some(logout_plan(os))
    } else if cmd == "settings"@ {
        Some(settings_plan(os))
    } else if cmd == "volumeup"@ {
        Some(volumeup_plan(os))
    } else if cmd == "volumedown"@ {
        Some(volumedown_plan(os))
    } else if cmd == "volumemute"@ {
        Some(volumemute_plan(os))
    } else if cmd == "brightnessup"@ {
        Some(brightnessup_plan(os))
    } else if cmd == "brightnessdown"@ {
        Some(brightnessdown_plan(os))
    } else if cmd == "wifi"@ {
        Some(wifi_plan(os))
    } else if cmd == "bluetooth"@ {
        Some(bluetooth_plan(os))
    } else if cmd == "screenshot"@ {
        Some(screenshot_plan(os))
    } else if cmd == "taskmanager"@ {
        Some(taskmanager_plan(os))
    } else if cmd == "calculator"@ {
        Some(calculator_plan(os))
    } else if cmd == "filemanager"@ {
        Some(filemanager_plan(os))
    } else if cmd == "terminal"@ {
        Some(terminal_plan(os))
    } else {
        None
    }
}

fn lock_plan_exec(os: Os) -> (r: SystemPlan)
    ensures
        r@ == lock_plan(os),
{
    match os {
        Os::Linux => {
        let mut attempts: Vec<Command> = Vec::new();
        let mut c0_args: Vec<String> = Vec::new();
        c0_args.push(String::from_str("--lock"));
        assert(texts(c0_args@) =~= seq!["--lock"@]);
        let c0 = Command { program: String::from_str("cinnamon-screensaver-command"), args: c0_args };
        push_command(&mut attempts, c0);
        let mut c1_args: Vec<String> = Vec::new();
        c1_args.push(String::from_str("lock"));
        assert(texts(c1_args@) =~= seq!["lock"@]);
        let c1 = Command { program: String::from_str("xdg-screensaver"), args: c1_args };
        push_command(&mut attempts, c1);
        assert(command_views(attempts@) =~= seq![command_view("cinnamon-screensaver-command"@, seq!["--lock"@]), command_view("xdg-screensaver"@, seq!["lock"@])]);
        SystemPlan::Spawn { attempts, message: String::from_str("Screen locked") }
        },
        Os::Windows => {
        let mut attempts: Vec<Command> = Vec::new();
        let mut c0_args: Vec<String> = Vec::new();
        c0_args.push(String::from_str("user32.dll"));
        c0_args.push(String::from_str("LockWorkStation"));
        assert(texts(c0_args@) =~= seq!["user32.dll"@, "LockWorkStation"@]);
        let c0 = Command { program: String::from_str("rundll32.exe"), args: c0_args };
        push_command(&mut attempts, c0);
        assert(command_views(attempts@) =~= seq![command_view("rundll32.exe"@, seq!["user32.dll"@, "LockWorkStation"@])]);
        SystemPlan::Spawn { attempts, message: String::from_str("Screen locked") }
        },
    }
}

fn shutdown_plan_exec(os: Os) -> (r: SystemPlan)
    ensures
        r@ == shutdown_plan(os),
{
    match os {
        Os::Linux => {
        let mut attempts: Vec<Command> = Vec::new();
        let mut c0_args: Vec<String> = Vec::new();
        c0_args.push(String::from_str("-h"));
        c0_args.push(String::from_str("now"));
        assert(texts(c0_args@) =~= seq!["-h"@, "now"@]);
        let c0 = Command { program: String::from_str("shutdown"), args: c0_args };
        push_command(&mut attempts, c0);
        assert(command_views(attempts@) =~= seq![command_view("shutdown"@, seq!["-h"@, "now"@])]);
        SystemPlan::Spawn { attempts, message: String::from_str("Shutting down...") }
        },
        Os::Windows => {
        let mut attempts: Vec<Command> = Vec::new();
        let mut c0_args: Vec<String> = Vec::new();
        c0_args.push(String::from_str("/s"));
        c0_args.push(String::from_str("/t"));
        c0_args.push(String::from_str("0"));
        assert(texts(c0_args@) =~= seq!["/s"@, "/t"@, "0"@]);
        let c0 = Command { program: String::from_str("shutdown"), args: c0_args };
        push_command(&mut attempts, c0);
        assert(command_views(attempts@) =~= seq![command_view("shutdown"@, seq!["/s"@, "/t"@, "0"@])]);
        SystemPlan::Spawn { attempts, message: String::from_str("Shutting down...") }
        },
    }
}

fn reboot_plan_exec(os: Os) -> (r: SystemPlan)
    ensures
        r@ == reboot_plan(os),
{
    match os {
        Os::Linux => {
        let mut attempts: Vec<Command> = Vec::new();
        let mut c0_args: Vec<String> = Vec::new();
        c0_args.push(String::from_str("-r"));
        c0_args.push(String::from_str("now"));
        assert(texts(c0_args@) =~= seq!["-r"@, "now"@]);
        let c0 = Command { program: String::from_str("shutdown"), args: c0_args };
        push_command(&mut attempts, c0);
        assert(command_views(attempts@) =~= seq![command_view("shutdown"@, seq!["-r"@, "now"@])]);
        SystemPlan::Spawn { attempts, message: String::from_str("Rebooting...") }
        },
        Os::Windows => {
        let mut attempts: Vec<Command> = Vec::new();
        let mut c0_args: Vec<String> = Vec::new();
        c0_args.push(String::from_str("/r"));
        c0_args.push(String::from_str("/t"));
        c0_args.push(String::from_str("0"));
        assert(texts(c0_args@) =~= seq!["/r"@, "/t"@, "0"@]);
        let c0 = Command { program: String::from_str("shutdown"), args: c0_args };
        push_command(&mut attempts, c0);
        assert(command_views(attempts@) =~= seq![command_view("shutdown"@, seq!["/r"@, "/t"@, "0"@])]);
        SystemPlan::Spawn { attempts, message: String::from_str("Rebooting...") }
        },
    }
}

fn sleep_plan_exec(os: Os) -> (r: SystemPlan)
    ensures
        r@ == sleep_plan(os),
{
    match os {
        Os::Linux => {
        let mut attempts: Vec<Command> = Vec::new();
        let mut c0_args: Vec<String> = Vec::new();
        c0_args.push(String::from_str("suspend"));
        assert(texts(c0_args@) =~= seq!["suspend"@]);
        let c0 = Command { program: String::from_str("systemctl"), args: c0_args };
        push_command(&mut attempts, c0);
        assert(command_views(attempts@) =~= seq![command_view("systemctl"@, seq!["suspend"@])]);
        SystemPlan::Spawn { attempts, message: String::from_str("Sleeping...") }
        },
        Os::Windows => {
        let mut attempts: Vec<Command> = Vec::new();
        let mut c0_args: Vec<String> = Vec::new();
        c0_args.push(String::from_str("powrprof.dll"));
        c0_args.push(String::from_str("SetSuspendState"));
        c0_args.push(String::from_str("0"));
        c0_args.push(String::from_str("1"));
        c0_args.push(String::from_str("0"));
        assert(texts(c0_args@) =~= seq!["powrprof.dll"@, "SetSuspendState"@, "0"@, "1"@, "0"@]);
        let c0 = Command { program: String::from_str("rundll32.exe"), args: c0_args };
        push_command(&mut attempts, c0);
        assert(command_views(attempts@) =~= seq![command_view("rundll32.exe"@, seq!["powrprof.dll"@, "SetSuspendState"@, "0"@, "1"@, "0"@])]);
        SystemPlan::Spawn { attempts, message: String::from_str("Sleeping...") }
        },
    }
}

fn logout_plan_exec(os: Os) -> (r: SystemPlan)
    ensures
        r@ == logout_plan(os),
{
    match os {
        Os::Linux => {
        let mut attempts: Vec<Command> = Vec::new();
        let mut c0_args: Vec<String> = Vec::new();
        c0_args.push(String::from_str("--logout"));
        assert(texts(c0_args@) =~= seq!["--logout"@]);
        let c0 = Command { program: String::from_str("cinnamon-session-quit"), args: c0_args };
        push_command(&mut attempts, c0);
        let mut c1_args: Vec<String> = Vec::new();
        c1_args.push(String::from_str("--logout"));
        assert(texts(c1_args@) =~= seq!["--logout"@]);
        let c1 = Command { program: String::from_str("gnome-session-quit"), args: c1_args };
        push_command(&mut attempts, c1);
        assert(command_views(attempts@) =~= seq![command_view("cinnamon-session-quit"@, seq!["--logout"@]), command_view("gnome-session-quit"@, seq!["--logout"@])]);
        SystemPlan::Spawn { attempts, message: String::from_str("Logging out...") }
        },
        Os::Windows => {
        let mut attempts: Vec<Command> = Vec::new();
        let mut c0_args: Vec<String> = Vec::new();
        c0_args.push(String::from_str("/l"));
        assert(texts(c0_args@) =~= seq!["/l"@]);
        let c0 = Command { program: String::from_str("shutdown"), args: c0_args };
        push_command(&mut attempts, c0);
        assert(command_views(attempts@) =~= seq![command_view("shutdown"@, seq!["/l"@])]);
        SystemPlan::Spawn { attempts, message: String::from_str("Logging out...") }
        },
    }
}

fn settings_plan_exec(os: Os) -> (r: SystemPlan)
    ensures
        r@ == settings_plan(os),
{
    match os {
        Os::Linux => {
        let mut attempts: Vec<Command> = Vec::new();
        let mut c0_args: Vec<String> = Vec::new();
        assert(texts(c0_args@) =~= Seq::<Seq<char>>::empty());
        let c0 = Command { program: String::from_str("cinnamon-settings"), args: c0_args };
        push_command(&mut attempts, c0);
        let mut c1_args: Vec<String> = Vec::new();
        assert(texts(c1_args@) =~= Seq::<Seq<char>>::empty());
        let c1 = Command { program: String::from_str("gnome-control-center"), args: c1_args };
        push_command(&mut attempts, c1);
        assert(command_views(attempts@) =~= seq![command_view("cinnamon-settings"@, Seq::empty()), command_view("gnome-control-center"@, Seq::empty())]);
        SystemPlan::Spawn { attempts, message: String::from_str("Settings opened") }
        },
        Os::Windows => {
        let mut attempts: Vec<Command> = Vec::new();
        let mut c0_args: Vec<String> = Vec::new();
        assert(texts(c0_args@) =~= Seq::<Seq<char>>::empty());
        let c0 = Command { program: String::from_str("ms-settings:"), args: c0_args };
        push_command(&mut attempts, c0);
        let mut c1_args: Vec<String> = Vec::new();
        c1_args.push(String::from_str("ms-settings:"));
        assert(texts(c1_args@) =~= seq!["ms-settings:"@]);
        let c1 = Command { program: String::from_str("start"), args: c1_args };
        push_command(&mut attempts, c1);
        assert(command_views(attempts@) =~= seq![command_view("ms-settings:"@, Seq::empty()), command_view("start"@, seq!["ms-settings:"@])]);
        SystemPlan::Spawn { attempts, message: String::from_str("Settings opened") }
        },
    }
}

fn volumeup_plan_exec(os: Os) -> (r: SystemPlan)
    ensures
        r@ == volumeup_plan(os),
{
    match os {
        Os::Linux => {
        let mut attempts: Vec<Command> = Vec::new();
        let mut c0_args: Vec<String> = Vec::new();
        c0_args.push(String::from_str("set-sink-volume"));
        c0_args.push(String::from_str("@DEFAULT_SINK@"));
        c0_args.push(String::from_str("+5%"));
        assert(texts(c0_args@) =~= seq!["set-sink-volume"@, "@DEFAULT_SINK@"@, "+5%"@]);
        let c0 = Command { program: String::from_str("pactl"), args: c0_args };
        push_command(&mut attempts, c0);
        assert(command_views(attempts@) =~= seq![command_view("pactl"@, seq!["set-sink-volume"@, "@DEFAULT_SINK@"@, "+5%"@])]);
        SystemPlan::Spawn { attempts, message: String::from_str("Volume up") }
        },
        Os::Windows => {
        let mut attempts: Vec<Command> = Vec::new();
        let mut c0_args: Vec<String> = Vec::new();
        c0_args.push(String::from_str("-Command"));
        c0_args.push(String::from_str("(New-Object -ComObject WScript.Shell).SendKeys([char]175)"));
        assert(texts(c0_args@) =~= seq!["-Command"@, "(New-Object -ComObject WScript.Shell).SendKeys([char]175)"@]);
        let c0 = Command { program: String::from_str("powershell"), args: c0_args };
        push_command(&mut attempts, c0);
        assert(command_views(attempts@) =~= seq![command_view("powershell"@, seq!["-Command"@, "(New-Object -ComObject WScript.Shell).SendKeys([char]175)"@])]);
        SystemPlan::Spawn { attempts, message: String::from_str("Volume up") }
        },
    }
}

fn volumedown_plan_exec(os: Os) -> (r: SystemPlan)
    ensures
        r@ == volumedown_plan(os),
{
    match os {
        Os::Linux => {
        let mut attempts: Vec<Command> = Vec::new();
        let mut c0_args: Vec<String> = Vec::new();
        c0_args.push(String::from_str("set-sink-volume"));
        c0_args.push(String::from_str("@DEFAULT_SINK@"));
        c0_args.push(String::from_str("-5%"));
        assert(texts(c0_args@) =~= seq!["set-sink-volume"@, "@DEFAULT_SINK@"@, "-5%"@]);
        let c0 = Command { program: String::from_str("pactl"), args: c0_args };
        push_command(&mut attempts, c0);
        assert(command_views(attempts@) =~= seq![command_view("pactl"@, seq!["set-sink-volume"@, "@DEFAULT_SINK@"@, "-5%"@])]);
        SystemPlan::Spawn { attempts, message: String::from_str("Volume down") }
        },
        Os::Windows => {
        let mut attempts: Vec<Command> = Vec::new();
        let mut c0_args: Vec<String> = Vec::new();
        c0_args.push(String::from_str("-Command"));
        c0_args.push(String::from_str("(New-Object -ComObject WScript.Shell).SendKeys([char]174)"));
        assert(texts(c0_args@) =~= seq!["-Command"@, "(New-Object -ComObject WScript.Shell).SendKeys([char]174)"@]);
        let c0 = Command { program: String::from_str("powershell"), args: c0_args };
        push_command(&mut attempts, c0);
        assert(command_views(attempts@) =~= seq![command_view("powershell"@, seq!["-Command"@, "(New-Object -ComObject WScript.Shell).SendKeys([char]174)"@])]);
        SystemPlan::Spawn { attempts, message: String::from_str("Volume down") }
        },
    }
}

fn volumemute_plan_exec(os: Os) -> (r: SystemPlan)
    ensures
        r@ == volumemute_plan(os),
{
    match os {
        Os::Linux => {
        let mut attempts: Vec<Command> = Vec::new();
        let mut c0_args: Vec<String> = Vec::new();
        c0_args.push(String::from_str("set-sink-mute"));
        c0_args.push(String::from_str("@DEFAULT_SINK@"));
        c0_args.push(String::from_str("toggle"));
        assert(texts(c0_args@) =~= seq!["set-sink-mute"@, "@DEFAULT_SINK@"@, "toggle"@]);
        let c0 = Command { program: String::from_str("pactl"), args: c0_args };
        push_command(&mut attempts, c0);
        assert(command_views(attempts@) =~= seq![command_view("pactl"@, seq!["set-sink-mute"@, "@DEFAULT_SINK@"@, "toggle"@])]);
        SystemPlan::Spawn { attempts, message: String::from_str("Mute toggled") }
        },
        Os::Windows => {
        let mut attempts: Vec<Command> = Vec::new();
        let mut c0_args: Vec<String> = Vec::new();
        c0_args.push(String::from_str("-Command"));
        c0_args.push(String::from_str("(New-Object -ComObject WScript.Shell).SendKeys([char]173)"));
        assert(texts(c0_args@) =~= seq!["-Command"@, "(New-Object -ComObject WScript.Shell).SendKeys([char]173)"@]);
        let c0 = Command { program: String::from_str("powershell"), args: c0_args };
        push_command(&mut attempts, c0);
        assert(command_views(attempts@) =~= seq![command_view("powershell"@, seq!["-Command"@, "(New-Object -ComObject WScript.Shell).SendKeys([char]173)"@])]);
        SystemPlan::Spawn { attempts, message: String::from_str("Mute toggled") }
        },
    }
}

fn brightnessup_plan_exec(os: Os) -> (r: SystemPlan)
    ensures
        r@ == brightnessup_plan(os),
{
    match os {
        Os::Linux => {
        let mut attempts: Vec<Command> = Vec::new();
        let mut c0_args: Vec<String> = Vec::new();
        c0_args.push(String::from_str("set"));
        c0_args.push(String::from_str("+10%"));
        assert(texts(c0_args@) =~= seq!["set"@, "+10%"@]);
        let c0 = Command { program: String::from_str("brightnessctl"), args: c0_args };
        push_command(&mut attempts, c0);
        assert(command_views(attempts@) =~= seq![command_view("brightnessctl"@, seq!["set"@, "+10%"@])]);
        SystemPlan::Spawn { attempts, message: String::from_str("Brightness up") }
        },
        Os::Windows => {
        let mut attempts: Vec<Command> = Vec::new();
        let mut c0_args: Vec<String> = Vec::new();
        c0_args.push(String::from_str("-Command"));
        c0_args.push(String::from_str("(Get-WmiObject -Namespace root/WMI -Class WmiMonitorBrightnessMethods).WmiSetBrightness(1, [Math]::Min((Get-WmiObject -Namespace root/WMI -Class WmiMonitorBrightness).CurrentBrightness + 10, 100))"));
        assert(texts(c0_args@) =~= seq!["-Command"@, "(Get-WmiObject -Namespace root/WMI -Class WmiMonitorBrightnessMethods).WmiSetBrightness(1, [Math]::Min((Get-WmiObject -Namespace root/WMI -Class WmiMonitorBrightness).CurrentBrightness + 10, 100))"@]);
        let c0 = Command { program: String::from_str("powershell"), args: c0_args };
        push_command(&mut attempts, c0);
        assert(command_views(attempts@) =~= seq![command_view("powershell"@, seq!["-Command"@, "(Get-WmiObject -Namespace root/WMI -Class WmiMonitorBrightnessMethods).WmiSetBrightness(1, [Math]::Min((Get-WmiObject -Namespace root/WMI -Class WmiMonitorBrightness).CurrentBrightness + 10, 100))"@])]);
        SystemPlan::Spawn { attempts, message: String::from_str("Brightness up") }
        },
    }
}

fn brightnessdown_plan_exec(os: Os) -> (r: SystemPlan)
    ensures
        r@ == brightnessdown_plan(os),
{
    match os {
        Os::Linux => {
        let mut attempts: Vec<Command> = Vec::new();
        let mut c0_args: Vec<String> = Vec::new();
        c0_args.push(String::from_str("set"));
        c0_args.push(String::from_str("10%-"));
        assert(texts(c0_args@) =~= seq!["set"@, "10%-"@]);
        let c0 = Command { program: String::from_str("brightnessctl"), args: c0_args };
        push_command(&mut attempts, c0);
        assert(command_views(attempts@) =~= seq![command_view("brightnessctl"@, seq!["set"@, "10%-"@])]);
        SystemPlan::Spawn { attempts, message: String::from_str("Brightness down") }
        },
        Os::Windows => {
        let mut attempts: Vec<Command> = Vec::new();
        let mut c0_args: Vec<String> = Vec::new();
        c0_args.push(String::from_str("-Command"));
        c0_args.push(String::from_str("(Get-WmiObject -Namespace root/WMI -Class WmiMonitorBrightnessMethods).WmiSetBrightness(1, [Math]::Max((Get-WmiObject -Namespace root/WMI -Class WmiMonitorBrightness).CurrentBrightness - 10, 0))"));
        assert(texts(c0_args@) =~= seq!["-Command"@, "(Get-WmiObject -Namespace root/WMI -Class WmiMonitorBrightnessMethods).WmiSetBrightness(1, [Math]::Max((Get-WmiObject -Namespace root/WMI -Class WmiMonitorBrightness).CurrentBrightness - 10, 0))"@]);
        let c0 = Command { program: String::from_str("powershell"), args: c0_args };
        push_command(&mut attempts, c0);
        assert(command_views(attempts@) =~= seq![command_view("powershell"@, seq!["-Command"@, "(Get-WmiObject -Namespace root/WMI -Class WmiMonitorBrightnessMethods).WmiSetBrightness(1, [Math]::Max((Get-WmiObject -Namespace root/WMI -Class WmiMonitorBrightness).CurrentBrightness - 10, 0))"@])]);
        SystemPlan::Spawn { attempts, message: String::from_str("Brightness down") }
        },
    }
}

fn wifi_plan_exec(os: Os) -> (r: SystemPlan)
    ensures
        r@ == wifi_plan(os),
{
    match os {
        Os::Linux => {
        let mut probe_args: Vec<String> = Vec::new();
        probe_args.push(String::from_str("radio"));
        probe_args.push(String::from_str("wifi"));
        assert(texts(probe_args@) =~= seq!["radio"@, "wifi"@]);
        let probe = Command { program: String::from_str("nmcli"), args: probe_args };
        let mut found_args: Vec<String> = Vec::new();
        found_args.push(String::from_str("radio"));
        found_args.push(String::from_str("wifi"));
        found_args.push(String::from_str("off"));
        assert(texts(found_args@) =~= seq!["radio"@, "wifi"@, "off"@]);
        let found = Command { program: String::from_str("nmcli"), args: found_args };
        let mut other_args: Vec<String> = Vec::new();
        other_args.push(String::from_str("radio"));
        other_args.push(String::from_str("wifi"));
        other_args.push(String::from_str("on"));
        assert(texts(other_args@) =~= seq!["radio"@, "wifi"@, "on"@]);
        let other = Command { program: String::from_str("nmcli"), args: other_args };
        SystemPlan::Probe(ProbePlan {
            probe,
            needle: String::from_str("enabled"),
            if_found: found,
            found_message: String::from_str("Wi-Fi disabled"),
            otherwise: other,
            otherwise_message: String::from_str("Wi-Fi enabled"),
        })
        },
        Os::Windows => {
        let mut attempts: Vec<Command> = Vec::new();
        let mut c0_args: Vec<String> = Vec::new();
        c0_args.push(String::from_str("ms-settings:network-wifi"));
        assert(texts(c0_args@) =~= seq!["ms-settings:network-wifi"@]);
        let c0 = Command { program: String::from_str("explorer"), args: c0_args };
        push_command(&mut attempts, c0);
        assert(command_views(attempts@) =~= seq![command_view("explorer"@, seq!["ms-settings:network-wifi"@])]);
        SystemPlan::Spawn { attempts, message: String::from_str("Wi-Fi settings opened") }
        },
    }
}

fn bluetooth_plan_exec(os: Os) -> (r: SystemPlan)
    ensures
        r@ == bluetooth_plan(os),
{
    match os {
        Os::Linux => {
        let mut probe_args: Vec<String> = Vec::new();
        probe_args.push(String::from_str("list"));
        probe_args.push(String::from_str("bluetooth"));
        assert(texts(probe_args@) =~= seq!["list"@, "bluetooth"@]);
        let probe = Command { program: String::from_str("rfkill"), args: probe_args };
        let mut found_args: Vec<String> = Vec::new();
        found_args.push(String::from_str("unblock"));
        found_args.push(String::from_str("bluetooth"));
        assert(texts(found_args@) =~= seq!["unblock"@, "bluetooth"@]);
        let found = Command { program: String::from_str("rfkill"), args: found_args };
        let mut other_args: Vec<String> = Vec::new();
        other_args.push(String::from_str("block"));
        other_args.push(String::from_str("bluetooth"));
        assert(texts(other_args@) =~= seq!["block"@, "bluetooth"@]);
        let other = Command { program: String::from_str("rfkill"), args: other_args };
        SystemPlan::Probe(ProbePlan {
            probe,
            needle: String::from_str("Soft blocked: yes"),
            if_found: found,
            found_message: String::from_str("Bluetooth enabled"),
            otherwise: other,
            otherwise_message: String::from_str("Bluetooth disabled"),
        })
        },
        Os::Windows => {
        let mut attempts: Vec<Command> = Vec::new();
        let mut c0_args: Vec<String> = Vec::new();
        c0_args.push(String::from_str("ms-settings:bluetooth"));
        assert(texts(c0_args@) =~= seq!["ms-settings:bluetooth"@]);
        let c0 = Command { program: String::from_str("explorer"), args: c0_args };
        push_command(&mut attempts, c0);
        assert(command_views(attempts@) =~= seq![command_view("explorer"@, seq!["ms-settings:bluetooth"@])]);
        SystemPlan::Spawn { attempts, message: String::from_str("Bluetooth settings opened") }
        },
    }
}

fn screenshot_plan_exec(os: Os) -> (r: SystemPlan)
    ensures
        r@ == screenshot_plan(os),
{
    match os {
        Os::Linux => {
        let mut attempts: Vec<Command> = Vec::new();
        let mut c0_args: Vec<String> = Vec::new();
        c0_args.push(String::from_str("--interactive"));
        assert(texts(c0_args@) =~= seq!["--interactive"@]);
        let c0 = Command { program: String::from_str("gnome-screenshot"), args: c0_args };
        push_command(&mut attempts, c0);
        let mut c1_args: Vec<String> = Vec::new();
        assert(texts(c1_args@) =~= Seq::<Seq<char>>::empty());
        let c1 = Command { program: String::from_str("xfce4-screenshooter"), args: c1_args };
        push_command(&mut attempts, c1);
        assert(command_views(attempts@) =~= seq![command_view("gnome-screenshot"@, seq!["--interactive"@]), command_view("xfce4-screenshooter"@, Seq::empty())]);
        SystemPlan::Spawn { attempts, message: String::from_str("Screenshot taken") }
        },
        Os::Windows => {
        let mut attempts: Vec<Command> = Vec::new();
        let mut c0_args: Vec<String> = Vec::new();
        assert(texts(c0_args@) =~= Seq::<Seq<char>>::empty());
        let c0 = Command { program: String::from_str("snippingtool"), args: c0_args };
        push_command(&mut attempts, c0);
        let mut c1_args: Vec<String> = Vec::new();
        c1_args.push(String::from_str("ms-screenclip:"));
        assert(texts(c1_args@) =~= seq!["ms-screenclip:"@]);
        let c1 = Command { program: String::from_str("explorer"), args: c1_args };
        push_command(&mut attempts, c1);
        assert(command_views(attempts@) =~= seq![command_view("snippingtool"@, Seq::empty()), command_view("explorer"@, seq!["ms-screenclip:"@])]);
        SystemPlan::Spawn { attempts, message: String::from_str("Screenshot taken") }
        },
    }
}

fn taskmanager_plan_exec(os: Os) -> (r: SystemPlan)
    ensures
        r@ == taskmanager_plan(os),
{
    match os {
        Os::Linux => {
        let mut attempts: Vec<Command> = Vec::new();
        let mut c0_args: Vec<String> = Vec::new();
        assert(texts(c0_args@) =~= Seq::<Seq<char>>::empty());
        let c0 = Command { program: String::from_str("gnome-system-monitor"), args: c0_args };
        push_command(&mut attempts, c0);
        let mut c1_args: Vec<String> = Vec::new();
        assert(texts(c1_args@) =~= Seq::<Seq<char>>::empty());
        let c1 = Command { program: String::from_str("xfce4-taskmanager"), args: c1_args };
        push_command(&mut attempts, c1);
        let mut c2_args: Vec<String> = Vec::new();
        c2_args.push(String::from_str("-t"));
        assert(texts(c2_args@) =~= seq!["-t"@]);
        let c2 = Command { program: String::from_str("htop"), args: c2_args };
        push_command(&mut attempts, c2);
        assert(command_views(attempts@) =~= seq![command_view("gnome-system-monitor"@, Seq::empty()), command_view("xfce4-taskmanager"@, Seq::empty()), command_view("htop"@, seq!["-t"@])]);
        SystemPlan::Spawn { attempts, message: String::from_str("Task manager opened") }
        },
        Os::Windows => {
        let mut attempts: Vec<Command> = Vec::new();
        let mut c0_args: Vec<String> = Vec::new();
        assert(texts(c0_args@) =~= Seq::<Seq<char>>::empty());
        let c0 = Command { program: String::from_str("taskmgr"), args: c0_args };
        push_command(&mut attempts, c0);
        assert(command_views(attempts@) =~= seq![command_view("taskmgr"@, Seq::empty())]);
        SystemPlan::Spawn { attempts, message: String::from_str("Task manager opened") }
        },
    }
}

fn calculator_plan_exec(os: Os) -> (r: SystemPlan)
    ensures
        r@ == calculator_plan(os),
{
    match os {
        Os::Linux => {
        let mut attempts: Vec<Command> = Vec::new();
        let mut c0_args: Vec<String> = Vec::new();
        assert(texts(c0_args@) =~= Seq::<Seq<char>>::empty());
        let c0 = Command { program: String::from_str("gnome-calculator"), args: c0_args };
        push_command(&mut attempts, c0);
        let mut c1_args: Vec<String> = Vec::new();
        assert(texts(c1_args@) =~= Seq::<Seq<char>>::empty());
        let c1 = Command { program: String::from_str("galculator"), args: c1_args };
        push_command(&mut attempts, c1);
        assert(command_views(attempts@) =~= seq![command_view("gnome-calculator"@, Seq::empty()), command_view("galculator"@, Seq::empty())]);
        SystemPlan::Spawn { attempts, message: String::from_str("Calculator opened") }
        },
        Os::Windows => {
        let mut attempts: Vec<Command> = Vec::new();
        let mut c0_args: Vec<String> = Vec::new();
        assert(texts(c0_args@) =~= Seq::<Seq<char>>::empty());
        let c0 = Command { program: String::from_str("calc"), args: c0_args };
        push_command(&mut attempts, c0);
        assert(command_views(attempts@) =~= seq![command_view("calc"@, Seq::empty())]);
        SystemPlan::Spawn { attempts, message: String::from_str("Calculator opened") }
        },
    }
}

fn filemanager_plan_exec(os: Os) -> (r: SystemPlan)
    ensures
        r@ == filemanager_plan(os),
{
    match os {
        Os::Linux => {
        let mut attempts: Vec<Command> = Vec::new();
        let mut c0_args: Vec<String> = Vec::new();
        assert(texts(c0_args@) =~= Seq::<Seq<char>>::empty());
        let c0 = Command { program: String::from_str("nemo"), args: c0_args };
        push_command(&mut attempts, c0);
        let mut c1_args: Vec<String> = Vec::new();
        assert(texts(c1_args@) =~= Seq::<Seq<char>>::empty());
        let c1 = Command { program: String::from_str("nautilus"), args: c1_args };
        push_command(&mut attempts, c1);
        let mut c2_args: Vec<String> = Vec::new();
        assert(texts(c2_args@) =~= Seq::<Seq<char>>::empty());
        let c2 = Command { program: String::from_str("thunar"), args: c2_args };
        push_command(&mut attempts, c2);
        assert(command_views(attempts@) =~= seq![command_view("nemo"@, Seq::empty()), command_view("nautilus"@, Seq::empty()), command_view("thunar"@, Seq::empty())]);
        SystemPlan::Spawn { attempts, message: String::from_str("File manager opened") }
        },
        Os::Windows => {
        let mut attempts: Vec<Command> = Vec::new();
        let mut c0_args: Vec<String> = Vec::new();
        assert(texts(c0_args@) =~= Seq::<Seq<char>>::empty());
        let c0 = Command { program: String::from_str("explorer"), args: c0_args };
        push_command(&mut attempts, c0);
        assert(command_views(attempts@) =~= seq![command_view("explorer"@, Seq::empty())]);
        SystemPlan::Spawn { attempts, message: String::from_str("File manager opened") }
        },
    }
}

fn terminal_plan_exec(os: Os) -> (r: SystemPlan)
    ensures
        r@ == terminal_plan(os),
{
    match os {
        Os::Linux => {
        let mut attempts: Vec<Command> = Vec::new();
        let mut c0_args: Vec<String> = Vec::new();
        assert(texts(c0_args@) =~= Seq::<Seq<char>>::empty());
        let c0 = Command { program: String::from_str("gnome-terminal"), args: c0_args };
        push_command(&mut attempts, c0);
        let mut c1_args: Vec<String> = Vec::new();
        assert(texts(c1_args@) =~= Seq::<Seq<char>>::empty());
        let c1 = Command { program: String::from_str("xfce4-terminal"), args: c1_args };
        push_command(&mut attempts, c1);
        let mut c2_args: Vec<String> = Vec::new();
        assert(texts(c2_args@) =~= Seq::<Seq<char>>::empty());
        let c2 = Command { program: String::from_str("x-terminal-emulator"), args: c2_args };
        push_command(&mut attempts, c2);
        assert(command_views(attempts@) =~= seq![command_view("gnome-terminal"@, Seq::empty()), command_view("xfce4-terminal"@, Seq::empty()), command_view("x-terminal-emulator"@, Seq::empty())]);
        SystemPlan::Spawn { attempts, message: String::from_str("Terminal opened") }
        },
        Os::Windows => {
        let mut attempts: Vec<Command> = Vec::new();
        let mut c0_args: Vec<String> = Vec::new();
        c0_args.push(String::from_str("/c"));
        c0_args.push(String::from_str("start"));
        c0_args.push(String::from_str("cmd"));
        assert(texts(c0_args@) =~= seq!["/c"@, "start"@, "cmd"@]);
        let c0 = Command { program: String::from_str("cmd"), args: c0_args };
        push_command(&mut attempts, c0);
        let mut c1_args: Vec<String> = Vec::new();
        assert(texts(c1_args@) =~= Seq::<Seq<char>>::empty());
        let c1 = Command { program: String::from_str("powershell"), args: c1_args };
        push_command(&mut attempts, c1);
        assert(command_views(attempts@) =~= seq![command_view("cmd"@, seq!["/c"@, "start"@, "cmd"@]), command_view("powershell"@, Seq::empty())]);
        SystemPlan::Spawn { attempts, message: String::from_str("Terminal opened") }
        },
    }
}


/// How to carry out the system command `cmd` (lock, shutdown, reboot, sleep, logout,
/// settings, volume and brightness up and down, mute, Wi-Fi, Bluetooth, screenshot,
/// task manager, calculator, file manager, terminal) on `os`, or the error
/// "Unknown command" for any other name.
pub fn system_command_plan(cmd: &str, os: Os) -> (r: Result<SystemPlan, String>)
    ensures
        match system_plan_spec(cmd@, os) {
            Some(p) => r is Ok && r->Ok_0@ == p,
            None => r is Err && r->Err_0@ == "Unknown command"@,
        },
{
    if same_text(cmd, "lock") {
        return Ok(lock_plan_exec(os));
    }
    if same_text(cmd, "shutdown") {
        return Ok(shutdown_plan_exec(os));
    }
    if same_text(cmd, "reboot") {
        return Ok(reboot_plan_exec(os));
    }
    if same_text(cmd, "sleep") {
        return Ok(sleep_plan_exec(os));
    }
    if same_text(cmd, "logout") {
        return Ok(logout_plan_exec(os));
    }
    if same_text(cmd, "settings") {
        return Ok(settings_plan_exec(os));
    }
    if same_text(cmd, "volumeup") {
        return Ok(volumeup_plan_exec(os));
    }
    if same_text(cmd, "volumedown") {
        return Ok(volumedown_plan_exec(os));
    }
    if same_text(cmd, "volumemute") {
        return Ok(volumemute_plan_exec(os));
    }
    if same_text(cmd, "brightnessup") {
        return Ok(brightnessup_plan_exec(os));
    }
    if same_text(cmd, "brightnessdown") {
        return Ok(brightnessdown_plan_exec(os));
    }
    if same_text(cmd, "wifi") {
        return Ok(wifi_plan_exec(os));
    }
    if same_text(cmd, "bluetooth") {
        return Ok(bluetooth_plan_exec(os));
    }
    if same_text(cmd, "screenshot") {
        return Ok(screenshot_plan_exec(os));
    }
    if same_text(cmd, "taskmanager") {
        return Ok(taskmanager_plan_exec(os));
    }
    if same_text(cmd, "calculator") {
        return Ok(calculator_plan_exec(os));
    }
    if same_text(cmd, "filemanager") {
        return Ok(filemanager_plan_exec(os));
    }
    if same_text(cmd, "terminal") {
        return Ok(terminal_plan_exec(os));
    }
    Err(String::from_str("Unknown command"))
}

// ---------------------------------------------------------------------------
// Carrying out a plan
// ---------------------------------------------------------------------------

/// What to do after an attempt to start a program.
pub enum SpawnStep {
    /// Try the attempt with this index.
    Attempt(usize),
    /// A program started: report this message.
    Started(String),
    /// No program could be started: report this error.
    Failed(String),
}

/// What a `SpawnStep` holds.
pub enum StepView {
    Attempt(nat),
    Started(Seq<char>),
    Failed(Seq<char>),
}

impl View for SpawnStep {
    type V = StepView;

    open spec fn view(&self) -> StepView {
        match self {
            SpawnStep::Attempt(i) => StepView::Attempt(*i as nat),
            SpawnStep::Started(m) => StepView::Started(m@),
            SpawnStep::Failed(e) => StepView::Failed(e@),
        }
    }
}

/// The texts of an attempt's outcome.
pub open spec fn outcome_view(o: Result<(), String>) -> Result<(), Seq<char>> {
    match o {
        Ok(_) => Ok(()),
        Err(e) => Err(e@),
    }
}

/// The step after attempt `tried` of `count` had `outcome`: report `message` when the
/// program started, else try the next attempt, or report the error after the last one.
pub open spec fn step_spec(count: nat, tried: nat, outcome: Result<(), Seq<char>>, message: Seq<
    char,
>) -> StepView {
    match outcome {
        Ok(_) => StepView::Started(message),
        Err(e) => if tried + 1 < count {
            StepView::Attempt(tried + 1)
        } else {
            StepView::Failed(e)
        },
    }
}

/// The step after attempt `tried` of `count` had `outcome` (see `step_spec`).
pub fn next_spawn_step(count: usize, tried: usize, outcome: Result<(), String>, message: &str) -> (r:
    SpawnStep)
    requires
        tried < count,
    ensures
        r@ == step_spec(count as nat, tried as nat, outcome_view(outcome), message@),
{
    match outcome {
        Ok(_) => SpawnStep::Started(String::from_str(message)),
        Err(e) => if tried + 1 < count {
            SpawnStep::Attempt(tried + 1)
        } else {
            SpawnStep::Failed(e)
        },
    }
}

/// Where stepping through the attempts from `tried` on ends, when attempt `i` has outcome
/// `outcomes[i]`.
pub open spec fn run_from(
    count: nat,
    tried: nat,
    outcomes: Seq<Result<(), Seq<char>>>,
    message: Seq<char>,
) -> StepView
    decreases count - tried,
{
    if tried >= count || tried >= outcomes.len() {
        StepView::Attempt(tried)
    } else {
        match step_spec(count, tried, outcomes[tried as int], message) {
            StepView::Attempt(n) => if n > tried {
                run_from(count, n, outcomes, message)
            } else {
                StepView::Attempt(n)
            },
            s => s,
        }
    }
}

/// Some attempt from `from` up to `count` starts its program.
pub open spec fn some_attempt_starts(outcomes: Seq<Result<(), Seq<char>>>, from: nat, count: nat) -> bool {
    exists|i: int| from <= i < count && #[trigger] outcomes[i] is Ok
}

/// Trying the attempts in order: the command succeeds with its message when some attempt
/// starts its program, and fails with the error of the last attempt when none does.
pub proof fn lemma_attempts_outcome(
    count: nat,
    tried: nat,
    outcomes: Seq<Result<(), Seq<char>>>,
    message: Seq<char>,
)
    requires
        tried < count <= outcomes.len(),
    ensures
        some_attempt_starts(outcomes, tried, count) ==> run_from(count, tried, outcomes, message)
            == StepView::Started(message),
        !some_attempt_starts(outcomes, tried, count) ==> run_from(count, tried, outcomes, message)
            == StepView::Failed(outcomes[count - 1]->Err_0),
    decreases count - tried,
{
    match outcomes[tried as int] {
        Ok(_) => {
            assert(some_attempt_starts(outcomes, tried, count));
        },
        Err(e) => {
            if tried + 1 < count {
                lemma_attempts_outcome(count, tried + 1, outcomes, message);
                if some_attempt_starts(outcomes, tried, count) {
                    let i = choose|i: int| tried <= i < count && #[trigger] outcomes[i] is Ok;
                    assert(i != tried);
                    assert(some_attempt_starts(outcomes, tried + 1, count));
                }
                if some_attempt_starts(outcomes, (tried + 1) as nat, count) {
                    let i = choose|i: int| tried + 1 <= i < count && #[trigger] outcomes[i] is Ok;
                    assert(some_attempt_starts(outcomes, tried, count));
                }
            } else {
                assert(tried == count - 1);
                if some_attempt_starts(outcomes, tried, count) {
                    let i = choose|i: int| tried <= i < count && #[trigger] outcomes[i] is Ok;
                    assert(i == tried);
                }
            }
        },
    }
}

/// The command to start after a probe whose output is `output`, with the message to
/// report when it starts: `if_found` when the output contains the needle, else
/// `otherwise`.
pub fn command_after_probe<'a>(plan: &'a ProbePlan, output: &str) -> (r: (&'a Command, &'a String))
    ensures
        contains_seq(output@, plan.needle@) ==> r.0@ == plan.if_found@ && r.1@
            == plan.found_message@,
        !contains_seq(output@, plan.needle@) ==> r.0@ == plan.otherwise@ && r.1@
            == plan.otherwise_message@,
{
    if contains(output, plan.needle.as_str()) {
        (&plan.if_found, &plan.found_message)
    } else {
        (&plan.otherwise, &plan.otherwise_message)
    }
}

// ---------------------------------------------------------------------------
// Opening an application
// ---------------------------------------------------------------------------

/// What opening an application does: record its name among the recent items (when its
/// desktop entry could be read), and start a command (when there is one to start).
pub struct OpenAppPlan {
    pub recent: Option<String>,
    pub launch: Option<Command>,
}

/// The command that starts an application directly: its command line split into words,
/// the first word the program, when the command line is not empty.
pub open spec fn direct_launch(app: AppInfoView) -> Option<CommandView> {
    let w = words_seq(app.command);
    if app.command.len() > 0 && w.len() > 0 {
        Some(command_view(w[0], w.skip(1)))
    } else {
        None
    }
}

/// The command that opens the application whose desktop entry reads as `entry` and whose
/// file name is `file_name`: its own command line, or else `gtk-launch` with the file name.
pub open spec fn launch_spec(entry: Option<AppInfoView>, file_name: Option<Seq<char>>) -> Option<CommandView> {
    let direct = match entry {
        Some(a) => direct_launch(a),
        None => None,
    };
    match direct {
        Some(c) => Some(c),
        None => match file_name {
            Some(f) => Some(command_view("gtk-launch"@, seq![f])),
            None => None,
        },
    }
}

/// What opening an application does, given its desktop entry as read (`None` when it
/// could not be read or gives no name) and the file name of its path (`None` when the
/// path has none).
pub fn plan_open_app(entry: Option<AppInfo>, file_name: Option<String>) -> (r: OpenAppPlan)
    ensures
        match entry {
            Some(a) => r.recent is Some && r.recent->0@ == a@.name,
            None => r.recent is None,
        },
        match launch_spec(
            match entry {
                Some(a) => Some(a@),
                None => None,
            },
            match file_name {
                Some(f) => Some(f@),
                None => None,
            },
        ) {
            Some(c) => r.launch is Some && r.launch->0@ == c,
            None => r.launch is None,
        },
{
    let mut recent: Option<String> = None;
    if let Some(app) = &entry {
        recent = Some(app.name.clone());
        let line = chars_of(app.command.as_str());
        let words = words_of(&line, 0, line.len());
        assert(line@.subrange(0, line@.len() as int) =~= line@);
        if line.len() > 0 && words.len() > 0 {
            let program = string_of(&words[0]);
            let mut args: Vec<String> = Vec::new();
            let mut k: usize = 1;
            let ghost w = views(words@);
            assert(w.skip(1).take(0) =~= Seq::<Seq<char>>::empty());
            while k < words.len()
                invariant
                    1 <= k <= words.len(),
                    w == views(words@),
                    texts(args@) == w.skip(1).take(k - 1),
                decreases words.len() - k,
            {
                let ghost before = args@;
                let a = string_of(&words[k]);
                args.push(a);
                assert(texts(args@) =~= texts(before).push(w[k as int]));
                assert(w.skip(1).take(k as int) =~= w.skip(1).take(k - 1).push(w[k as int]));
                k = k + 1;
            }
            assert(w.skip(1).take(words.len() - 1) =~= w.skip(1));
            return OpenAppPlan { recent, launch: Some(Command { program, args }) };
        }
    }
    match file_name {
        Some(f) => {
            let mut args: Vec<String> = Vec::new();
            let ghost fv = f@;
            args.push(f);
            assert(texts(args@) =~= seq![fv]);
            OpenAppPlan {
                recent,
                launch: Some(Command { program: String::from_str("gtk-launch"), args }),
            }
        },
        None => OpenAppPlan { recent, launch: None },
    }
}

// ---------------------------------------------------------------------------
// The system commands a search offers
// ---------------------------------------------------------------------------

/// A hit that is a system command names a command that runs on `os`.
pub open spec fn system_hit_runs(h: HitView, os: Os) -> bool {
    match h {
        HitView::Ready(r) => r.result_type == "system"@ ==> system_plan_spec(r.path, os) is Some,
        HitView::File(_, _) => true,
    }
}

/// Every system command among `s` runs on `os`.
pub open spec fn system_hits_run(s: Seq<HitView>, os: Os) -> bool {
    forall|i: int| 0 <= i < s.len() ==> system_hit_runs(#[trigger] s[i], os)
}

proof fn lemma_system_hits_run_concat(a: Seq<HitView>, b: Seq<HitView>, os: Os)
    requires
        system_hits_run(a, os),
        system_hits_run(b, os),
    ensures
        system_hits_run(a + b, os),
{
    assert forall|i: int| 0 <= i < (a + b).len() implies system_hit_runs(#[trigger] (a + b)[i], os) by {
        if i < a.len() {
            assert((a + b)[i] == a[i]);
        } else {
            assert((a + b)[i] == b[i - a.len()]);
        }
    }
}

proof fn lemma_table_hits_run(t: Seq<(Seq<char>, Seq<char>, Seq<char>)>, qlow: Seq<char>, os: Os)
    requires
        forall|j: int| 0 <= j < t.len() ==> system_plan_spec(#[trigger] t[j].0, os) is Some,
    ensures
        system_hits_run(system_hits(t, qlow), os),
    decreases t.len(),
{
    if t.len() > 0 {
        let d = t.drop_last();
        assert forall|j: int| 0 <= j < d.len() implies system_plan_spec(#[trigger] d[j].0, os) is Some by {
            assert(d[j] == t[j]);
        }
        lemma_table_hits_run(d, qlow, os);
        assert(system_plan_spec(t[t.len() - 1].0, os) is Some);
    }
}

proof fn lemma_recent_hits_run(items: Seq<Seq<char>>, qlow: Seq<char>, os: Os)
    ensures
        system_hits_run(recent_hits(items, qlow), os),
    decreases items.len(),
{
    reveal_strlit("recent");
    reveal_strlit("system");
    if items.len() > 0 {
        lemma_recent_hits_run(items.drop_last(), qlow, os);
        assert("recent"@[0] != "system"@[0]);
    }
}

proof fn lemma_app_hits_run(e: Seq<(Seq<char>, AppInfoView)>, qlow: Seq<char>, os: Os)
    ensures
        system_hits_run(app_hits(e, qlow), os),
    decreases e.len(),
{
    reveal_strlit("app");
    reveal_strlit("system");
    if e.len() > 0 {
        lemma_app_hits_run(e.drop_last(), qlow, os);
        assert("app"@.len() != "system"@.len());
        let h = app_hits(e.drop_last(), qlow);
        let r = app_hits(e, qlow);
        assert forall|i: int| 0 <= i < r.len() implies system_hit_runs(#[trigger] r[i], os) by {
            if i < h.len() {
                assert(r[i] == h[i]);
            }
        }
    }
}

proof fn lemma_file_hits_run(e: Seq<(Seq<char>, FileEntryView)>, qlow: Seq<char>, os: Os)
    ensures
        system_hits_run(file_hits(e, qlow), os),
    decreases e.len(),
{
    if e.len() > 0 {
        lemma_file_hits_run(e.drop_last(), qlow, os);
    }
}

/// Every system command that a search offers runs: the path of each hit of type `system`
/// is a name that `system_command_plan` accepts, on every operating system.
pub proof fn lemma_search_system_hits_run(
    apps: Seq<(Seq<char>, AppInfoView)>,
    files: Seq<(Seq<char>, FileEntryView)>,
    recents: Seq<Seq<char>>,
    q: Seq<char>,
    calc: Option<Seq<char>>,
    os: Os,
)
    ensures
        system_hits_run(at_most(search_candidates(apps, files, recents, q, calc), 20), os),
{
    let qlow = lowercase_of(q);
    reveal_strlit("system");
    reveal_strlit("calculator");
    reveal_strlit("command");
    reveal_strlit("web_search");
    reveal_strlit("youtube_search");
    let t = system_table();
    assert(t[0].0 == "lock"@);
    assert(t[1].0 == "shutdown"@);
    assert(t[2].0 == "reboot"@);
    assert(t[3].0 == "sleep"@);
    assert(t[4].0 == "logout"@);
    assert(t[5].0 == "settings"@);
    assert(t[6].0 == "volumeup"@);
    assert(t[7].0 == "volumedown"@);
    assert(t[8].0 == "volumemute"@);
    assert(t[9].0 == "brightnessup"@);
    assert(t[10].0 == "brightnessdown"@);
    assert(t[11].0 == "wifi"@);
    assert(t[12].0 == "bluetooth"@);
    assert(t[13].0 == "screenshot"@);
    assert(t[14].0 == "taskmanager"@);
    assert(t[15].0 == "calculator"@);
    assert(t[16].0 == "filemanager"@);
    assert(t[17].0 == "terminal"@);
    assert(t.len() == 18);
    lemma_table_hits_run(t, qlow, os);
    lemma_recent_hits_run(latest(recents, 5), qlow, os);
    lemma_app_hits_run(apps, qlow, os);
    lemma_file_hits_run(files, qlow, os);
    let c = calculator_hits(q, calc);
    let m = command_hits(q);
    let w = web_hits(q);
    assert("calculator"@.len() != "system"@.len());
    assert("command"@.len() != "system"@.len());
    assert("web_search"@.len() != "system"@.len());
    assert("youtube_search"@.len() != "system"@.len());
    assert(system_hits_run(c, os));
    assert forall|i: int| 0 <= i < m.len() implies system_hit_runs(#[trigger] m[i], os) by {
        assert(m[i] == m[0]);
    }
    assert forall|i: int| 0 <= i < w.len() implies system_hit_runs(#[trigger] w[i], os) by {
        if i == 0 {
            assert(w[i] == HitView::Ready(web_result(q)));
        } else {
            assert(w[i] == HitView::Ready(youtube_result(q)));
        }
    }
    lemma_system_hits_run_concat(c, m, os);
    lemma_system_hits_run_concat(c + m, w, os);
    lemma_system_hits_run_concat(c + m + w, system_hits(t, qlow), os);
    lemma_system_hits_run_concat(c + m + w + system_hits(t, qlow), recent_hits(latest(recents, 5), qlow), os);
    let p = c + m + w + system_hits(t, qlow) + recent_hits(latest(recents, 5), qlow);
    lemma_system_hits_run_concat(p, app_hits(apps, qlow), os);
    lemma_system_hits_run_concat(p + app_hits(apps, qlow), file_hits(files, qlow), os);
    let all = search_candidates(apps, files, recents, q, calc);
    assert(all == p + app_hits(apps, qlow) + file_hits(files, qlow));
    if all.len() > 20 {
        assert forall|i: int| 0 <= i < all.take(20).len() implies system_hit_runs(#[trigger] all.take(20)[i], os) by {
            assert(all.take(20)[i] == all[i]);
        }
    }
}

/// Rebooting is not shutting down: on every system the reboot command starts the same
/// program as the shutdown command with the same arguments but the first, which asks for
/// a restart (`-r` on Linux, `/r` on Windows) instead of a power-off (`-h`, `/s`). On
/// Linux its only attempt is `shutdown -r now`.
pub proof fn lemma_reboot_restarts(os: Os)
    ensures
        system_plan_spec("reboot"@, os) matches Some(PlanView::Spawn(ra, rm))
            && system_plan_spec("shutdown"@, os) matches Some(PlanView::Spawn(sa, sm))
            && ra.len() == 1 && sa.len() == 1
            && ra[0].program == sa[0].program
            && ra[0].args.len() == sa[0].args.len()
            && ra[0].args.len() >= 1
            && ra[0].args.drop_first() == sa[0].args.drop_first()
            && ra[0].args[0] != sa[0].args[0]
            && ra[0].args[0] == (if os == Os::Linux { "-r"@ } else { "/r"@ })
            && rm != sm,
        os == Os::Linux ==> system_plan_spec("reboot"@, os) == Some(
            PlanView::Spawn(seq![command_view("shutdown"@, seq!["-r"@, "now"@])], "Rebooting..."@),
        ),
{
    reveal_strlit("reboot");
    reveal_strlit("lock");
    reveal_strlit("shutdown");
    reveal_strlit("-r");
    reveal_strlit("-h");
    reveal_strlit("/r");
    reveal_strlit("/s");
    reveal_strlit("Rebooting...");
    reveal_strlit("Shutting down...");
    assert("reboot"@.len() != "lock"@.len());
    assert("reboot"@.len() != "shutdown"@.len());
    assert("-r"@[1] != "-h"@[1]);
    assert("/r"@[1] != "/s"@[1]);
    assert("Rebooting..."@[0] != "Shutting down..."@[0]);
    match os {
        Os::Linux => {
            assert(seq!["-r"@, "now"@].drop_first() =~= seq!["-h"@, "now"@].drop_first());
        },
        Os::Windows => {
            assert(seq!["/r"@, "/t"@, "0"@].drop_first() =~= seq!["/s"@, "/t"@, "0"@].drop_first());
        },
    }
}

} // verus!
