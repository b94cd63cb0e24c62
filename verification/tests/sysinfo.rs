use universal_launcher::sysinfo::{
    cpu_core_count, cpu_model, disk_usage, format_uptime, kernel_release, linux_system_info, load_average,
    meminfo_field, os_pretty_name, pagefile_rows, settle_unknown_swap, temperature, unknown_system_info,
    uptime_seconds, windows_cpu_name, windows_system_info, windows_version,
};

#[test]
fn os_release() {
    let t = "NAME=\"Ubuntu\"\nPRETTY_NAME=\"Ubuntu 22.04.3 LTS\"\nID=ubuntu\n";
    assert_eq!(os_pretty_name(t).as_deref(), Some("Ubuntu 22.04.3 LTS"));
    assert_eq!(os_pretty_name("ID=x\n"), None);
    assert_eq!(os_pretty_name("PRETTY_NAME=a=b\nPRETTY_NAME=\"\"c\"\n").as_deref(), Some("c"));
}

#[test]
fn kernel_and_uptime() {
    assert_eq!(kernel_release("Linux version 6.5.0-14-generic (buildd@lcy02) #14"), "6.5.0-14-generic");
    assert_eq!(kernel_release("Linux version"), "Unknown");
    assert_eq!(uptime_seconds("12345.67 54321.00\n"), Some(12345));
    assert_eq!(uptime_seconds("abc"), None);
    assert_eq!(format_uptime(12345), "3h 25m");
    assert_eq!(format_uptime(59), "0h 0m");
    assert_eq!(format_uptime(3600 * 100 + 61), "100h 1m");
}

#[test]
fn load_and_cpu() {
    assert_eq!(load_average("0.52 0.58 0.59 1/1234 5678\n").as_deref(), Some("0.52 0.58 0.59"));
    assert_eq!(load_average("  \n"), None);
    let cpu = "processor\t: 0\nmodel name\t: Intel(R) Core(TM) i7\nprocessor\t: 1\nmodel name\t: other\n";
    assert_eq!(cpu_core_count(cpu), 2);
    assert_eq!(cpu_model(cpu), "Intel(R) Core(TM) i7");
    assert_eq!(cpu_model("processor: 0\n"), "Unknown");
    assert_eq!(cpu_model("model name without colon\n"), "Unknown");
}

#[test]
fn memory_and_disk() {
    let m = "MemTotal:       16314252 kB\nMemFree:  1 kB\nMemAvailable:   8123456 kB\nSwapTotal: 0 kB\n";
    assert_eq!(meminfo_field(m, "MemTotal").as_deref(), Some("16314252"));
    assert_eq!(meminfo_field(m, "MemAvailable").as_deref(), Some("8123456"));
    assert_eq!(meminfo_field(m, "SwapFree"), None);
    let df = "Filesystem      Size  Used Avail Use% Mounted on\n/dev/nvme0n1p2  468G  201G  244G  46% /\n";
    let d = disk_usage(df).unwrap();
    assert_eq!(d.total, "468G");
    assert_eq!(d.free, "244G");
    assert_eq!(d.percent, 46);
    assert!(disk_usage("Filesystem\n").is_none());
    assert_eq!(disk_usage("h\na b c d x%\n").unwrap().percent, 0);
}

#[test]
fn sensors() {
    let s = "coretemp-isa-0000\nAdapter: ISA adapter\nPackage id 0:  +45.0°C  (high = +80.0°C)\nCore 0:        +43.0°C  (high = +80.0°C)\n";
    assert_eq!(temperature(s).as_deref(), Some("+43.0"));
    assert_eq!(temperature("nothing here\n"), None);
    assert_eq!(temperature("CPU fan\n"), None);
}

#[test]
fn linux_overview() {
    let info = linux_system_info(
        Some("PRETTY_NAME=\"Debian\"\n"), Some("Linux version 6.1.0 x"), Some("host\n"),
        Some("7200.5 1\n"), Some("1.00 2.00 3.00 1/2 3\n"), Some("processor : 0\nmodel name : Ryzen\n"),
        None, None,
    );
    assert_eq!(info.os, "Debian");
    assert_eq!(info.kernel, "6.1.0");
    assert_eq!(info.hostname, "host");
    assert_eq!(info.uptime, "2h 0m");
    assert_eq!(info.loadavg, "1.00 2.00 3.00");
    assert_eq!(info.cpu_name, "Ryzen");
    assert_eq!(info.cpu_cores, 1);
    assert_eq!(info.disk_total, "?");
    assert_eq!(info.temperature, "—");
    assert_eq!(info.network, "Bağlı");
    let empty = linux_system_info(None, None, None, None, None, None, None, None);
    assert_eq!(empty.os, "Unknown");
    assert_eq!(empty.uptime, "0h 0m");
    assert_eq!(empty.loadavg, "0.00 0.00 0.00");
}

#[test]
fn windows_sources() {
    assert_eq!(windows_version("\r\nMicrosoft Windows [Version 10.0]\r\n"), "");
    assert_eq!(windows_version("Microsoft Windows [Version 10.0.19045.3803]\r\n"), "Microsoft Windows [Version 10.0.19045.3803]");
    assert_eq!(windows_cpu_name(Some("\r\nNode,Name\r\nPC,Intel Core i5 \r\n")), "Intel Core i5");
    assert_eq!(windows_cpu_name(Some("PC,Unknown\n")), "Windows CPU");
    assert_eq!(windows_cpu_name(None), "Windows CPU");
    let rows = pagefile_rows("AllocatedBaseSize  CurrentUsage\n4096  512\n\nbad\n");
    assert_eq!(rows, vec![("4096".to_string(), "512".to_string())]);
    let info = windows_system_info(None, Some("PC".to_string()), 7_500_000, 8, None);
    assert_eq!(info.os, "Windows");
    assert_eq!(info.uptime, "2h 5m");
    assert_eq!(info.cpu_cores, 8);
    assert_eq!(info.cpu_name, "Windows CPU");
    let mut info = unknown_system_info();
    info.hostname = "box".to_string();
    info.ram_percent = 42;
    settle_unknown_swap(&mut info);
    assert_eq!(info.swap_total, "0 GB");
    assert_eq!(info.swap_free, "0 GB");
    assert_eq!(info.swap_percent, 0);
    assert_eq!(info.hostname, "box");
    assert_eq!(info.ram_percent, 42);
    assert_eq!(info.os, "Unknown");
    info.swap_total = "8 GB".to_string();
    settle_unknown_swap(&mut info);
    assert_eq!(info.swap_total, "8 GB");
}
