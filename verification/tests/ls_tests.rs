use termirust::entities::{FileInfo, LsResult, SortBy};
use termirust::ls_commands::{LsCommandsUseCase, LsCommandParser, LsCommand, LsOptions};
use termirust::ls_display::{format_size, LsDisplayFormatter, LsDisplayComponent};

fn file(name: &str, size: u64) -> FileInfo {
    FileInfo::new(name.to_string(), format!("/tmp/{}", name)).with_size(size)
}

fn dir(name: &str) -> FileInfo {
    FileInfo::new(name.to_string(), format!("/tmp/{}", name)).with_directory(true)
}

fn sample() -> Vec<FileInfo> {
    vec![file("small.txt", 10), file("big.bin", 1000), dir("sub")]
}

#[test]
fn listing_totals_are_exact() {
    let uc = LsCommandsUseCase::new();
    let result =
        uc.list_directory_with_options(sample(), "/tmp".to_string(), &LsOptions::default());
    assert_eq!(result.total_files, 2);
    assert_eq!(result.total_directories, 1);
    assert_eq!(result.total_size, 1010);
    assert_eq!(result.current_directory, "/tmp");
}

#[test]
fn sort_by_size_puts_the_large_file_first() {
    let uc = LsCommandsUseCase::new();
    let mut options = LsOptions::default();
    options.sort_by = SortBy::Size;
    let result = uc.list_directory_with_options(sample(), "/tmp".to_string(), &options);
    assert_eq!(result.files[0].name, "big.bin");
}

#[test]
fn sort_by_name_is_case_insensitive() {
    let mut result = LsResult::new("/".to_string());
    result.add_file(file("beta", 1));
    result.add_file(file("Alpha", 1));
    result.add_file(file("gamma", 1));
    result.sort_by_name();
    let names: Vec<&str> = result.files.iter().map(|f| f.name.as_str()).collect();
    assert_eq!(names, vec!["Alpha", "beta", "gamma"]);
}

#[test]
fn sort_by_modified_is_most_recent_first() {
    let mut result = LsResult::new("/".to_string());
    result.add_file(file("old", 1).with_modified(100));
    result.add_file(file("new", 1).with_modified(300));
    result.add_file(file("mid", 1).with_modified(200));
    result.sort_by_modified();
    let names: Vec<&str> = result.files.iter().map(|f| f.name.as_str()).collect();
    assert_eq!(names, vec!["new", "mid", "old"]);
}

#[test]
fn hidden_entries_are_filtered_unless_asked_for() {
    let uc = LsCommandsUseCase::new();
    let entries = vec![file(".secret", 1), file("plain", 2)];
    let shown = uc.list_directory_with_options(
        entries,
        "/".to_string(),
        &LsOptions::default(),
    );
    assert_eq!(shown.files.len(), 1);
    assert_eq!(shown.files[0].name, "plain");
    let mut with_hidden = LsOptions::default();
    with_hidden.show_hidden = true;
    let entries2 = vec![file(".secret", 1), file("plain", 2)];
    let all = uc.list_directory_with_options(entries2, "/".to_string(), &with_hidden);
    assert_eq!(all.files.len(), 2);
}

#[test]
fn directory_only_and_file_only_filters() {
    let uc = LsCommandsUseCase::new();
    let mut dirs_only = LsOptions::default();
    dirs_only.show_only_directories = true;
    let r1 = uc.list_directory_with_options(sample(), "/".to_string(), &dirs_only);
    assert_eq!(r1.files.len(), 1);
    assert!(r1.files[0].is_directory);

    let mut files_only = LsOptions::default();
    files_only.show_only_files = true;
    let r2 = uc.list_directory_with_options(sample(), "/".to_string(), &files_only);
    assert_eq!(r2.files.len(), 2);

    // Asking for both keeps nothing at all; the totals still count the scan.
    let mut both = LsOptions::default();
    both.show_only_directories = true;
    both.show_only_files = true;
    let r3 = uc.list_directory_with_options(sample(), "/".to_string(), &both);
    assert_eq!(r3.files.len(), 0);
    assert_eq!(r3.total_files, 2);
    assert_eq!(r3.total_directories, 1);
    assert_eq!(r3.total_size, 1010);
}

#[test]
fn ls_parser_reads_flags_and_path() {
    match LsCommandParser::parse_command("ls -la /tmp") {
        LsCommand::List(path, o) => {
            assert_eq!(path, Some("/tmp".to_string()));
            assert!(o.long_format);
            assert!(o.show_hidden);
        }
        other => panic!("expected a listing, got {:?}", other),
    }
    match LsCommandParser::parse_command("ls -S") {
        LsCommand::List(path, o) => {
            assert!(path.is_none());
            assert!(matches!(o.sort_by, SortBy::Size));
        }
        other => panic!("expected a listing, got {:?}", other),
    }
}

#[test]
fn ls_parser_rejects_bad_input() {
    match LsCommandParser::parse_command("ls -x") {
        LsCommand::Invalid(msg) => assert_eq!(msg, "Opción desconocida: -x"),
        other => panic!("expected invalid, got {:?}", other),
    }
    match LsCommandParser::parse_command("ls a b") {
        LsCommand::Invalid(msg) => assert_eq!(msg, "Demasiados argumentos"),
        other => panic!("expected invalid, got {:?}", other),
    }
    assert!(matches!(
        LsCommandParser::parse_command("cat x"),
        LsCommand::NotLsCommand
    ));
    assert!(LsCommandParser::is_ls_command("ls -l"));
    assert!(!LsCommandParser::is_ls_command("dir"));
}

#[test]
fn permission_text_renders_the_mode_bits() {
    let uc = LsCommandsUseCase::new();
    assert_eq!(uc.format_permissions(false, 0o644), "-rw-r--r--");
    assert_eq!(uc.format_permissions(true, 0o755), "drwxr-xr-x");
    assert_eq!(uc.format_permissions(false, 0o000), "----------");
    assert_eq!(uc.format_permissions(false, 0o777), "-rwxrwxrwx");
}

#[test]
fn directory_stats_count_everything() {
    let uc = LsCommandsUseCase::new();
    let entries = sample();
    let stats = uc.get_directory_stats(&entries, "/tmp".to_string());
    assert_eq!(stats.total_items, 3);
    assert_eq!(stats.total_files, 2);
    assert_eq!(stats.total_directories, 1);
    assert_eq!(stats.total_size, 1010);
}

#[test]
fn sizes_render_with_units() {
    assert_eq!(format_size(0), "0 B");
    assert_eq!(format_size(1023), "1023 B");
    assert_eq!(format_size(1536), "1.5 KB");
    assert_eq!(format_size(1048576), "1.0 MB");
    assert_eq!(format_size(3 * 1073741824 / 2), "1.5 GB");
}

#[test]
fn long_rows_carry_the_calendar_date() {
    let f = file("epoch.txt", 5).with_modified(0);
    let mut o = LsOptions::default();
    o.long_format = true;
    let row = LsDisplayFormatter::format_file_row(&f, &o);
    // The epoch rendered as day/month/year hour:minute in UTC.
    assert!(row.contains("01/01/1970 00:00"), "row was: {}", row);
    assert!(row.ends_with("📄 epoch.txt"));
}

#[test]
fn empty_directory_rendering() {
    let result = LsResult::new("/empty".to_string());
    let lines = LsDisplayFormatter::format_ls_result(&result, &LsOptions::default());
    assert_eq!(lines.len(), 3);
    assert_eq!(lines[0], "📁 Directorio: /empty");
    assert_eq!(lines[1], "");
    assert_eq!(lines[2], "📭 El directorio está vacío");
}

#[test]
fn long_listing_has_statistics_and_rows() {
    let uc = LsCommandsUseCase::new();
    let mut o = LsOptions::default();
    o.long_format = true;
    let result = uc.list_directory_with_options(sample(), "/tmp".to_string(), &o);
    let lines = LsDisplayFormatter::format_ls_result(&result, &o);
    assert_eq!(lines[0], "📁 Directorio: /tmp");
    assert!(lines.iter().any(|l| l == "💾 Tamaño total: 1010 B"));
    assert!(lines.iter().any(|l| l.starts_with("Permisos")));
}

#[test]
fn preview_splits_directories_and_files() {
    let mut result = LsResult::new("/p".to_string());
    result.add_file(dir("d1"));
    result.add_file(file("f1", 1));
    let lines = LsDisplayComponent::render_preview(&result);
    assert_eq!(lines[0], "📁 Vista previa de: /p");
    assert!(lines.iter().any(|l| l == "📁 Directorios:"));
    assert!(lines.iter().any(|l| l == "   📁 d1"));
    assert!(lines.iter().any(|l| l == "   📄 f1"));
}
