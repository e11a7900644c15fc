use x86::bootloader::Resource;
use x86::commands::{parse_console_line, ConsoleCommand, CONSOLE_HELP};
use x86::error::X86Error;
use x86::image::ImageKind;

fn usage_message(line: &str, has_saved_state: bool) -> String {
    match parse_console_line(line, has_saved_state) {
        Err(X86Error::InvalidImage(m)) => m,
        Err(other) => panic!("unexpected error: {:?}", other),
        Ok(_) => panic!("expected a usage error for {line:?}"),
    }
}

#[test]
fn console_blank_lines_do_nothing() {
    assert!(matches!(parse_console_line("", false), Ok(ConsoleCommand::Nothing)));
    assert!(matches!(parse_console_line(" \t  ", false), Ok(ConsoleCommand::Nothing)));
}

#[test]
fn console_simple_commands() {
    assert!(matches!(parse_console_line("help", false), Ok(ConsoleCommand::Help)));
    assert!(matches!(parse_console_line("  capabilities  ", false), Ok(ConsoleCommand::Capabilities)));
    assert!(matches!(parse_console_line("info extra", false), Ok(ConsoleCommand::Info)));
    assert!(matches!(parse_console_line("screen", false), Ok(ConsoleCommand::Screen)));
    assert!(matches!(parse_console_line("prepare", false), Ok(ConsoleCommand::Prepare)));
    assert!(matches!(parse_console_line("run 5", false), Ok(ConsoleCommand::Run)));
    assert!(matches!(parse_console_line("quit", false), Ok(ConsoleCommand::Quit)));
    assert!(matches!(parse_console_line("exit", true), Ok(ConsoleCommand::Quit)));
    assert!(CONSOLE_HELP.starts_with("Commands:\n  help"));
}

#[test]
fn console_unknown_command() {
    assert_eq!(usage_message("reboot now", false), "unknown command; type `help`");
    assert_eq!(usage_message("HELP", false), "unknown command; type `help`");
}

#[test]
fn console_config_numbers() {
    assert!(matches!(parse_console_line("config ram 1048576", false), Ok(ConsoleCommand::ConfigRam(1048576))));
    assert!(matches!(parse_console_line("config\tvga  +8192", false), Ok(ConsoleCommand::ConfigVga(8192))));
    assert_eq!(usage_message("config", false), "usage: config ram|vga <bytes>");
    assert_eq!(usage_message("config disk 5", false), "usage: config ram|vga <bytes>");
    assert_eq!(usage_message("config ram", false), "missing numeric value");
    assert_eq!(usage_message("config ram 12k", false), "invalid number: invalid digit found in string");
    assert_eq!(usage_message("config vga -1", false), "invalid number: invalid digit found in string");
    assert_eq!(
        usage_message("config ram 18446744073709551616", false),
        "invalid number: number too large to fit in target type"
    );
    assert!(matches!(
        parse_console_line("config ram 18446744073709551615", false),
        Ok(ConsoleCommand::ConfigRam(u64::MAX))
    ));
}

#[test]
fn console_load_images() {
    assert!(matches!(parse_console_line("load bios seabios.bin", false), Ok(ConsoleCommand::Load(ImageKind::Bios, p)) if p == "seabios.bin"));
    assert!(matches!(parse_console_line("load vga-bios vga.bin", false), Ok(ConsoleCommand::Load(ImageKind::VgaBios, p)) if p == "vga.bin"));
    assert!(matches!(parse_console_line("load disk d.img", false), Ok(ConsoleCommand::Load(ImageKind::RawDisk, p)) if p == "d.img"));
    assert!(matches!(parse_console_line("load cdrom os.iso", false), Ok(ConsoleCommand::Load(ImageKind::Iso9660, p)) if p == "os.iso"));
    assert!(matches!(parse_console_line("load state s.bin.zst", false), Ok(ConsoleCommand::LoadState(p)) if p == "s.bin.zst"));
    assert_eq!(usage_message("load bios", false), "missing BIOS path");
    assert_eq!(usage_message("load vga-bios", false), "missing VGA BIOS path");
    assert_eq!(usage_message("load disk", false), "missing disk path");
    assert_eq!(usage_message("load cdrom", false), "missing CD-ROM path");
    assert_eq!(usage_message("load state", false), "missing state path");
    assert_eq!(usage_message("load bootloader", false), "missing bootloader path or URL");
    assert_eq!(usage_message("load", false), "usage: load bios|vga-bios|disk|cdrom|state|bootloader <source>");
    assert_eq!(usage_message("load kernel k", false), "usage: load bios|vga-bios|disk|cdrom|state|bootloader <source>");
}

#[test]
fn console_bootloader_url_or_file() {
    assert!(matches!(parse_console_line("load bootloader https://example.com/boot.img", false),
        Ok(ConsoleCommand::LoadBootloader(Resource::Url(u))) if u == "https://example.com/boot.img"));
    assert!(matches!(parse_console_line("load bootloader http://h/b", false),
        Ok(ConsoleCommand::LoadBootloader(Resource::Url(u))) if u == "http://h/b"));
    assert!(matches!(parse_console_line("load bootloader ./boot.img", false),
        Ok(ConsoleCommand::LoadBootloader(Resource::File(p))) if p == "./boot.img"));
    assert!(matches!(parse_console_line("load bootloader ftp://h/b", false),
        Ok(ConsoleCommand::LoadBootloader(Resource::File(p))) if p == "ftp://h/b"));
}

#[test]
fn console_checksum_dump_and_type() {
    assert!(matches!(parse_console_line("checksum disk", false), Ok(ConsoleCommand::Checksum(k)) if k == "disk"));
    assert!(matches!(parse_console_line("checksum", false), Ok(ConsoleCommand::Checksum(k)) if k.is_empty()));
    assert!(matches!(parse_console_line("dump-screen out.ppm", false), Ok(ConsoleCommand::DumpScreen(p)) if p == "out.ppm"));
    assert_eq!(usage_message("dump-screen", false), "usage: dump-screen <path.ppm>");
    assert!(matches!(parse_console_line("type  hello \t world ", false), Ok(ConsoleCommand::Type(t)) if t == "hello world\n"));
    assert!(matches!(parse_console_line("type", false), Ok(ConsoleCommand::Type(t)) if t == "\n"));
}

#[test]
fn console_run_state_rules() {
    match parse_console_line("run-state", false) {
        Err(X86Error::InvalidState(m)) => assert_eq!(m, "load a v86 saved state before run-state"),
        _ => panic!("expected an invalid-state error"),
    }
    assert!(matches!(parse_console_line("run-state", true), Ok(ConsoleCommand::RunState(100000))));
    assert!(matches!(parse_console_line("run-state 42", true), Ok(ConsoleCommand::RunState(42))));
    assert_eq!(usage_message("run-state many", true), "invalid max_steps: invalid digit found in string");
}
