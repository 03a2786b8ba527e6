use termirust::entities::FileInfo;
use termirust::ls_example::{clone_files, LsExample};

fn entries() -> Vec<FileInfo> {
    vec![
        FileInfo::new("one.txt".to_string(), "/e/one.txt".to_string()).with_size(10),
        FileInfo::new("sub".to_string(), "/e/sub".to_string()).with_directory(true),
    ]
}

#[test]
fn cloned_entries_are_equal() {
    let original = entries();
    let copy = clone_files(&original);
    assert_eq!(copy.len(), original.len());
    assert_eq!(copy[0].name, "one.txt");
    assert_eq!(copy[0].size, 10);
    assert!(copy[1].is_directory);
}

#[test]
fn one_example_command_renders_a_listing() {
    let lines = LsExample::execute_ls_command("ls -l", entries(), "/e".to_string());
    assert_eq!(lines[0], "📁 Directorio: /e");
    assert!(lines.iter().any(|l| l.starts_with("Permisos")));
}

#[test]
fn a_bad_example_command_renders_the_error() {
    let lines = LsExample::execute_ls_command("ls -q", entries(), "/e".to_string());
    assert_eq!(lines[0], "❌ Error en comando ls:");
    assert!(lines[1].contains("Opción desconocida: -q"));
}

#[test]
fn the_example_tour_covers_the_forms() {
    let lines = LsExample::run_examples(entries(), "/e".to_string());
    assert_eq!(lines[0], "🚀 Ejemplos del comando ls:");
    assert!(lines.iter().any(|l| l == "📖 Ayuda del comando ls:"));
    assert!(lines.iter().filter(|l| l.starts_with("📁 Directorio: /e")).count() >= 5);
}

#[test]
fn the_preview_summarises_the_directory() {
    let lines = LsExample::show_preview(entries(), "/e".to_string());
    assert_eq!(lines[0], "📁 Vista previa de: /e");
    assert!(lines.iter().any(|l| l == "   📄 one.txt"));
    assert!(lines.iter().any(|l| l == "   📁 sub"));
}
