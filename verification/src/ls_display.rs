//! Text rendering for directory listings: the short packed format, the long
//! table, sizes with units, and dates through the calendar library.
use vstd::prelude::*;
use crate::entities::{FileInfo, LsResult};
use crate::ls_commands::LsOptions;
use crate::text::{u64_to_string, dec_str, repeat_char};

verus! {

/// The width a short listing is packed to.
pub const LS_LINE_WIDTH: usize = 80;

/// A kibibyte, the first size unit boundary.
pub const SIZE_KB: u64 = 1024;

/// A mebibyte.
pub const SIZE_MB: u64 = 1048576;

/// A gibibyte.
pub const SIZE_GB: u64 = 1073741824;

/// What the calendar library prints for a timestamp: day/month/year
/// hour:minute in UTC. The text depends on the seconds value alone.
pub uninterp spec fn date_text_of(secs: u64) -> Seq<char>;

/// Relies on chrono's DateTime::from_timestamp and its formatter: the
/// rendering of a Unix timestamp as day/month/year hour:minute in UTC, a
/// fixed text for one that lies outside the calendar's range.
#[verifier::external_body]
fn format_timestamp(secs: u64) -> (r: String)
    ensures
        r@ == date_text_of(secs),
{
    match chrono::DateTime::from_timestamp(secs as i64, 0) {
        Some(dt) => dt.format("%d/%m/%Y %H:%M").to_string(),
        None => "Fecha inválida".to_string(),
    }
}

/// A size with its unit: plain bytes below a kibibyte, then one decimal of
/// the matching unit.
pub open spec fn size_text(size: u64) -> Seq<char> {
    if size < SIZE_KB {
        dec_str(size as nat) + " B"@
    } else if size < SIZE_MB {
        scaled_text(size as nat, SIZE_KB as nat) + " KB"@
    } else if size < SIZE_GB {
        scaled_text(size as nat, SIZE_MB as nat) + " MB"@
    } else {
        scaled_text(size as nat, SIZE_GB as nat) + " GB"@
    }
}

/// A quantity over a unit, with one decimal, truncated.
pub open spec fn scaled_text(size: nat, unit: nat) -> Seq<char> {
    dec_str(size * 10 / unit / 10) + "."@ + dec_str(size * 10 / unit % 10)
}

fn scaled_exec(size: u64, unit: u64) -> (r: String)
    requires
        unit >= 1,
    ensures
        r@ == scaled_text(size as nat, unit as nat),
{
    let tenths_wide: u128 = (size as u128) * 10 / (unit as u128);
    proof {
        assert((size as int) * 10 / (unit as int) <= (size as int) * 10) by (nonlinear_arith)
            requires
                unit >= 1,
                size >= 0,
        ;
    }
    let tenths: u64 = (tenths_wide / 10) as u64;
    let frac: u64 = (tenths_wide % 10) as u64;
    let mut r = u64_to_string(tenths);
    r.append(".");
    r.append(u64_to_string(frac).as_str());
    proof {
        assert(r@ =~= scaled_text(size as nat, unit as nat));
    }
    r
}

/// Renders a size with its unit.
pub fn format_size(size: u64) -> (r: String)
    ensures
        r@ == size_text(size),
{
    if size < SIZE_KB {
        let mut r = u64_to_string(size);
        r.append(" B");
        r
    } else if size < SIZE_MB {
        let mut r = scaled_exec(size, SIZE_KB);
        r.append(" KB");
        r
    } else if size < SIZE_GB {
        let mut r = scaled_exec(size, SIZE_MB);
        r.append(" MB");
        r
    } else {
        let mut r = scaled_exec(size, SIZE_GB);
        r.append(" GB");
        r
    }
}

/// A value padded with spaces on the right up to the column width; a value
/// already that wide is left alone.
pub open spec fn padded(v: Seq<char>, w: nat) -> Seq<char> {
    if v.len() >= w {
        v
    } else {
        v + Seq::new((w - v.len()) as nat, |i: int| ' ')
    }
}

fn pad_right(v: String, w: usize) -> (r: String)
    ensures
        r@ == padded(v@, w as nat),
{
    let n = v.as_str().unicode_len();
    if n >= w {
        v
    } else {
        let mut r = v;
        let fill = repeat_char(' ', w - n);
        r.append(fill.as_str());
        proof {
            assert(fill@ =~= Seq::new((w - n) as nat, |i: int| ' '));
        }
        r
    }
}

/// The marker put before an entry's name: directories and files each get
/// their own.
pub open spec fn display_name(f: FileInfo) -> Seq<char> {
    (if f.is_directory {
        "📁 "@
    } else {
        "📄 "@
    }) + f.name@
}

fn display_name_exec(f: &FileInfo) -> (r: String)
    ensures
        r@ == display_name(*f),
{
    let mut r = if f.is_directory {
        String::from_str("📁 ")
    } else {
        String::from_str("📄 ")
    };
    r.append(f.name.as_str());
    r
}

/// The greedy packing of display names into lines no wider than the limit:
/// a name that does not fit (with its two-space separator) starts a new
/// line.
pub open spec fn pack_names(items: Seq<Seq<char>>, cur: Seq<char>) -> Seq<Seq<char>>
    decreases items.len(),
{
    if items.len() == 0 {
        if cur.len() == 0 {
            seq![]
        } else {
            seq![cur]
        }
    } else {
        let it = items[0];
        if cur.len() + it.len() + 2 > LS_LINE_WIDTH {
            seq![cur] + pack_names(items.drop_first(), it)
        } else if cur.len() == 0 {
            pack_names(items.drop_first(), it)
        } else {
            pack_names(items.drop_first(), cur + "  "@ + it)
        }
    }
}

/// One row of the long table.
pub open spec fn long_row(f: FileInfo, human: bool) -> Seq<char> {
    padded(f.permissions@, 12) + " "@ + padded(f.owner@, 8) + " "@ + padded(f.group@, 8) + " "@
        + padded(
        if human {
            size_text(f.size)
        } else {
            dec_str(f.size as nat)
        },
        12,
    ) + " "@ + padded(date_text_of(f.modified), 20) + " "@ + display_name(f)
}

/// The column header of the long table.
pub open spec fn long_header() -> Seq<char> {
    padded("Permisos"@, 12) + " "@ + padded("Propietario"@, 8) + " "@ + padded("Grupo"@, 8) + " "@
        + padded("Tamaño"@, 12) + " "@ + padded("Modificado"@, 20) + " "@ + "Nombre"@
}

/// The rule drawn under the table header, as long as the header itself.
pub open spec fn rule_line() -> Seq<char> {
    Seq::new(long_header().len(), |i: int| '-')
}

/// The statistics block of the long format.
pub open spec fn stats_block(result: LsResult) -> Seq<Seq<char>> {
    seq![
        "📊 Total: "@ + dec_str(result.files@.len() as nat) + " elementos"@,
        "📁 Directorios: "@ + dec_str(result.total_directories as nat),
        "📄 Archivos: "@ + dec_str(result.total_files as nat),
        "💾 Tamaño total: "@ + size_text(result.total_size),
    ]
}

/// The long table: the header, the rule, one row per entry.
pub open spec fn long_table(result: LsResult, human: bool) -> Seq<Seq<char>> {
    seq![long_header(), rule_line()] + result.files@.map_values(
        |f: FileInfo| long_row(f, human),
    )
}

/// The help screen of the listing command, line by line.
pub open spec fn ls_help_lines() -> Seq<Seq<char>> {
    seq![
        "📖 Ayuda del comando ls:"@,
        Seq::<char>::empty(),
        "Uso: ls [opciones] [directorio]"@,
        Seq::<char>::empty(),
        "Opciones:"@,
        "  -a    Mostrar archivos ocultos"@,
        "  -d    Mostrar solo directorios"@,
        "  -f    Mostrar solo archivos"@,
        "  -l    Formato largo (detallado)"@,
        "  -h    Tamaños en formato legible"@,
        "  -S    Ordenar por tamaño"@,
        "  -t    Ordenar por fecha de modificación"@,
        Seq::<char>::empty(),
        "Ejemplos:"@,
        "  ls                    # Listar archivos del directorio actual"@,
        "  ls -la               # Listar todos los archivos con detalles"@,
        "  ls -lh /ruta         # Listar con tamaños legibles"@,
        "  ls -t                # Ordenar por fecha de modificación"@,
    ]
}

/// The error block of a failed listing, line by line.
pub open spec fn ls_error_lines(error: Seq<char>) -> Seq<Seq<char>> {
    seq!["❌ Error en comando ls:"@, "   "@ + error]
}

/// The whole rendering of a listing, line by line.
pub open spec fn ls_result_lines(result: LsResult, options: LsOptions) -> Seq<Seq<char>> {
    let head = seq!["📁 Directorio: "@ + result.current_directory@, Seq::<char>::empty()];
    if result.files@.len() == 0 {
        head + seq!["📭 El directorio está vacío"@]
    } else if options.long_format {
        head + stats_block(result) + seq![Seq::<char>::empty()] + long_table(
            result,
            options.human_readable,
        )
    } else {
        head + pack_names(result.files@.map_values(|f: FileInfo| display_name(f)), Seq::empty())
    }
}

/// The entry-name filters the preview groups by.
pub open spec fn is_dir_pred() -> spec_fn(FileInfo) -> bool {
    |f: FileInfo| f.is_directory
}

pub open spec fn is_plain_pred() -> spec_fn(FileInfo) -> bool {
    |f: FileInfo| !f.is_directory
}

/// The directory names of a scan, in order.
pub open spec fn dir_names(files: Seq<FileInfo>) -> Seq<Seq<char>> {
    files.filter(is_dir_pred()).map_values(|f: FileInfo| f.name@)
}

/// The plain-file names of a scan, in order.
pub open spec fn file_names(files: Seq<FileInfo>) -> Seq<Seq<char>> {
    files.filter(is_plain_pred()).map_values(|f: FileInfo| f.name@)
}

/// One name under its group marker.
pub open spec fn marked_fn(marker: Seq<char>) -> spec_fn(Seq<char>) -> Seq<char> {
    |nm: Seq<char>| marker + nm
}

/// One preview group: a title, up to five names under their marker, and a
/// note of how many more there are; an empty group shows nothing.
pub open spec fn preview_group(
    title: Seq<char>,
    marker: Seq<char>,
    names: Seq<Seq<char>>,
) -> Seq<Seq<char>> {
    if names.len() == 0 {
        seq![]
    } else {
        let shown: int = if names.len() < 5 {
            names.len() as int
        } else {
            5
        };
        seq![title] + names.take(shown).map_values(marked_fn(marker)) + (if names.len()
            > 5 {
            seq!["   ... y "@ + dec_str((names.len() - 5) as nat) + " más"@]
        } else {
            seq![]
        })
    }
}

/// The whole preview: the header, a blank line, the directory group (with a
/// trailing blank line when present) and the file group.
pub open spec fn preview_lines(result: LsResult) -> Seq<Seq<char>> {
    let dirs = dir_names(result.files@);
    let plain = file_names(result.files@);
    seq!["📁 Vista previa de: "@ + result.current_directory@, Seq::<char>::empty()]
        + preview_group("📁 Directorios:"@, "   📁 "@, dirs) + (if dirs.len() > 0 {
        seq![Seq::<char>::empty()]
    } else {
        seq![]
    }) + preview_group("📄 Archivos:"@, "   📄 "@, plain)
}

/// Renders listings as display lines.
pub struct LsDisplayFormatter;

impl LsDisplayFormatter {
    /// The full rendering: a directory header, then either an empty-directory
    /// notice, or the entries — packed names in the short format; statistics,
    /// a table header, a rule and one row per entry in the long format.
    pub fn format_ls_result(result: &LsResult, options: &LsOptions) -> (r: Vec<String>)
        ensures
            r@.map_values(|s: String| s@) == ls_result_lines(*result, *options),
            r@.len() >= 2,
            r@[0]@ == "📁 Directorio: "@ + result.current_directory@,
            r@[1]@ == Seq::<char>::empty(),
            result.files@.len() == 0 ==> r@.len() == 3 && r@[2]@ == "📭 El directorio está vacío"@,
    {
        let mut out: Vec<String> = Vec::new();
        let mut header = String::from_str("📁 Directorio: ");
        header.append(result.current_directory.as_str());
        out.push(header);
        out.push(String::new());
        if result.files.len() == 0 {
            out.push(String::from_str("📭 El directorio está vacío"));
            proof {
                assert(out@.map_values(|s: String| s@) =~= ls_result_lines(*result, *options));
            }
            return out;
        }
        if options.long_format {
            let mut stats = Self::format_statistics(result);
            out.append(&mut stats);
            out.push(String::new());
            let mut table = Self::format_long_listing(result, options);
            out.append(&mut table);
            proof {
                assert(out@.map_values(|s: String| s@) =~= ls_result_lines(*result, *options));
            }
        } else {
            let mut packed = Self::format_simple_listing(result);
            out.append(&mut packed);
            proof {
                assert(out@.map_values(|s: String| s@) =~= ls_result_lines(*result, *options));
            }
        }
        out
    }

    /// The statistics block of the long format.
    pub fn format_statistics(result: &LsResult) -> (r: Vec<String>)
        ensures
            r@.map_values(|s: String| s@) == stats_block(*result),
    {
        let mut out: Vec<String> = Vec::new();
        let mut total = String::from_str("📊 Total: ");
        total.append(u64_to_string(result.files.len() as u64).as_str());
        total.append(" elementos");
        out.push(total);
        let mut dirs = String::from_str("📁 Directorios: ");
        dirs.append(u64_to_string(result.total_directories as u64).as_str());
        out.push(dirs);
        let mut files = String::from_str("📄 Archivos: ");
        files.append(u64_to_string(result.total_files as u64).as_str());
        out.push(files);
        let mut size = String::from_str("💾 Tamaño total: ");
        size.append(format_size(result.total_size).as_str());
        out.push(size);
        proof {
            assert(out@.map_values(|s: String| s@) =~= stats_block(*result));
        }
        out
    }

    /// The short format: display names packed into lines.
    pub fn format_simple_listing(result: &LsResult) -> (r: Vec<String>)
        ensures
            r@.map_values(|s: String| s@) == pack_names(
                result.files@.map_values(|f: FileInfo| display_name(f)),
                Seq::empty(),
            ),
    {
        let ghost items = result.files@.map_values(|f: FileInfo| display_name(f));
        let mut out: Vec<String> = Vec::new();
        let mut current = String::new();
        let n = result.files.len();
        let mut i: usize = 0;
        proof {
            assert(items.skip(0) =~= items);
            assert(out@.map_values(|s: String| s@) + pack_names(items, Seq::empty()) =~= pack_names(
                items,
                Seq::empty(),
            ));
        }
        while i < n
            invariant
                i <= n,
                n == result.files@.len(),
                items == result.files@.map_values(|f: FileInfo| display_name(f)),
                pack_names(items, Seq::empty()) == out@.map_values(|s: String| s@) + pack_names(
                    items.skip(i as int),
                    current@,
                ),
            decreases n - i,
        {
            let ghost out_seq = out@.map_values(|s: String| s@);
            let ghost cur_prev = current@;
            proof {
                assert(items.skip(i as int)[0] == items[i as int]);
                assert(items.skip(i as int).drop_first() =~= items.skip(i + 1 as int));
            }
            let name = display_name_exec(&result.files[i]);
            let name_width = name.as_str().unicode_len();
            let cur_len = current.as_str().unicode_len();
            let overflowing = name_width > LS_LINE_WIDTH || cur_len > LS_LINE_WIDTH || cur_len
                + name_width + 2 > LS_LINE_WIDTH;
            if overflowing {
                out.push(current);
                current = name;
                proof {
                    assert(out@.map_values(|s: String| s@) =~= out_seq.push(cur_prev));
                    assert(pack_names(items.skip(i as int), cur_prev) == seq![cur_prev]
                        + pack_names(items.skip(i + 1 as int), items[i as int]));
                    assert(out_seq + (seq![cur_prev] + pack_names(
                        items.skip(i + 1 as int),
                        items[i as int],
                    )) =~= out_seq.push(cur_prev) + pack_names(
                        items.skip(i + 1 as int),
                        items[i as int],
                    ));
                }
            } else {
                if cur_len != 0 {
                    current.append("  ");
                }
                current.append(name.as_str());
                proof {
                    if cur_prev.len() != 0 {
                        assert(current@ == cur_prev + "  "@ + items[i as int]);
                        assert(pack_names(items.skip(i as int), cur_prev) == pack_names(
                            items.skip(i + 1 as int),
                            cur_prev + "  "@ + items[i as int],
                        ));
                    } else {
                        assert(current@ =~= items[i as int]);
                        assert(pack_names(items.skip(i as int), cur_prev) == pack_names(
                            items.skip(i + 1 as int),
                            items[i as int],
                        ));
                    }
                }
            }
            i = i + 1;
        }
        let ghost out_seq = out@.map_values(|s: String| s@);
        let ghost cur_last = current@;
        if current.as_str().unicode_len() != 0 {
            out.push(current);
            proof {
                assert(out@.map_values(|s: String| s@) =~= out_seq.push(cur_last));
            }
        }
        proof {
            assert(items.skip(n as int).len() == 0);
            if cur_last.len() == 0 {
                assert(out_seq + pack_names(items.skip(n as int), cur_last) =~= out_seq);
            } else {
                assert(out_seq + pack_names(items.skip(n as int), cur_last) =~= out_seq.push(
                    cur_last,
                ));
            }
        }
        out
    }

    /// The long format: a column header, a rule, and one row per entry.
    pub fn format_long_listing(result: &LsResult, options: &LsOptions) -> (r: Vec<String>)
        ensures
            r@.map_values(|s: String| s@) == long_table(*result, options.human_readable),
            r@.len() == 2 + result.files@.len(),
    {
        let mut out: Vec<String> = Vec::new();
        let mut header = pad_right(String::from_str("Permisos"), 12);
        header.append(" ");
        header.append(pad_right(String::from_str("Propietario"), 8).as_str());
        header.append(" ");
        header.append(pad_right(String::from_str("Grupo"), 8).as_str());
        header.append(" ");
        header.append(pad_right(String::from_str("Tamaño"), 12).as_str());
        header.append(" ");
        header.append(pad_right(String::from_str("Modificado"), 20).as_str());
        header.append(" ");
        header.append("Nombre");
        proof {
            assert(header@ =~= long_header());
        }
        let rule = repeat_char('-', header.as_str().unicode_len());
        proof {
            assert(rule@ =~= rule_line());
        }
        out.push(header);
        out.push(rule);
        let n = result.files.len();
        let mut i: usize = 0;
        while i < n
            invariant
                i <= n,
                n == result.files@.len(),
                out@.len() == 2 + i,
                out@[0]@ == long_header(),
                out@[1]@ == rule_line(),
                forall|k: int|
                    0 <= k < i ==> out@[k + 2]@ == long_row(
                        #[trigger] result.files@[k],
                        options.human_readable,
                    ),
            decreases n - i,
        {
            let row = Self::format_file_row(&result.files[i], options);
            out.push(row);
            i = i + 1;
        }
        proof {
            assert(out@.map_values(|s: String| s@) =~= long_table(
                *result,
                options.human_readable,
            ));
        }
        out
    }

    /// One table row for an entry.
    pub fn format_file_row(file: &FileInfo, options: &LsOptions) -> (r: String)
        ensures
            r@ == long_row(*file, options.human_readable),
    {
        let size_txt = if options.human_readable {
            format_size(file.size)
        } else {
            u64_to_string(file.size)
        };
        let mut r = pad_right(file.permissions.clone(), 12);
        r.append(" ");
        r.append(pad_right(file.owner.clone(), 8).as_str());
        r.append(" ");
        r.append(pad_right(file.group.clone(), 8).as_str());
        r.append(" ");
        r.append(pad_right(size_txt, 12).as_str());
        r.append(" ");
        r.append(pad_right(format_timestamp(file.modified), 20).as_str());
        r.append(" ");
        r.append(display_name_exec(file).as_str());
        r
    }

    /// An error block for a failed listing.
    pub fn format_error(error: &str) -> (r: Vec<String>)
        ensures
            r@.map_values(|s: String| s@) == ls_error_lines(error@),
            r@.len() == 2,
            r@[0]@ == "❌ Error en comando ls:"@,
            r@[1]@ == "   "@ + error@,
    {
        let mut out: Vec<String> = Vec::new();
        out.push(String::from_str("❌ Error en comando ls:"));
        let mut line = String::from_str("   ");
        line.append(error);
        out.push(line);
        proof {
            assert(out@.map_values(|s: String| s@) =~= ls_error_lines(error@));
        }
        out
    }

    /// The help screen of the listing command.
    pub fn format_help() -> (r: Vec<String>)
        ensures
            r@.map_values(|s: String| s@) == ls_help_lines(),
            r@.len() == 18,
    {
        let mut out: Vec<String> = Vec::new();
        out.push(String::from_str("📖 Ayuda del comando ls:"));
        out.push(String::new());
        out.push(String::from_str("Uso: ls [opciones] [directorio]"));
        out.push(String::new());
        out.push(String::from_str("Opciones:"));
        out.push(String::from_str("  -a    Mostrar archivos ocultos"));
        out.push(String::from_str("  -d    Mostrar solo directorios"));
        out.push(String::from_str("  -f    Mostrar solo archivos"));
        out.push(String::from_str("  -l    Formato largo (detallado)"));
        out.push(String::from_str("  -h    Tamaños en formato legible"));
        out.push(String::from_str("  -S    Ordenar por tamaño"));
        out.push(String::from_str("  -t    Ordenar por fecha de modificación"));
        out.push(String::new());
        out.push(String::from_str("Ejemplos:"));
        out.push(String::from_str("  ls                    # Listar archivos del directorio actual"));
        out.push(String::from_str("  ls -la               # Listar todos los archivos con detalles"));
        out.push(String::from_str("  ls -lh /ruta         # Listar con tamaños legibles"));
        out.push(String::from_str("  ls -t                # Ordenar por fecha de modificación"));
        proof {
            assert(out@.map_values(|s: String| s@) =~= ls_help_lines());
        }
        out
    }
}

/// The component the pipeline renders listings through.
pub struct LsDisplayComponent;

impl LsDisplayComponent {
    /// The full listing rendering.
    pub fn render(result: &LsResult, options: &LsOptions) -> (r: Vec<String>)
        ensures
            r@.map_values(|s: String| s@) == ls_result_lines(*result, *options),
            r@.len() >= 2,
            r@[0]@ == "📁 Directorio: "@ + result.current_directory@,
    {
        LsDisplayFormatter::format_ls_result(result, options)
    }

    /// The error rendering.
    pub fn render_error(error: &str) -> (r: Vec<String>)
        ensures
            r@.map_values(|s: String| s@) == ls_error_lines(error@),
            r@.len() == 2,
            r@[0]@ == "❌ Error en comando ls:"@,
            r@[1]@ == "   "@ + error@,
    {
        LsDisplayFormatter::format_error(error)
    }

    /// The help rendering.
    pub fn render_help() -> (r: Vec<String>)
        ensures
            r@.map_values(|s: String| s@) == ls_help_lines(),
            r@.len() == 18,
    {
        LsDisplayFormatter::format_help()
    }

    /// A short preview: up to five directories and five files by name, each
    /// group with a note of how many more there are.
    pub fn render_preview(result: &LsResult) -> (r: Vec<String>)
        ensures
            r@.map_values(|s: String| s@) == preview_lines(*result),
            r@.len() >= 2,
            r@[0]@ == "📁 Vista previa de: "@ + result.current_directory@,
            r@[1]@ == Seq::<char>::empty(),
    {
        let ghost dirs_model = dir_names(result.files@);
        let ghost plain_model = file_names(result.files@);
        let mut out: Vec<String> = Vec::new();
        let mut header = String::from_str("📁 Vista previa de: ");
        header.append(result.current_directory.as_str());
        out.push(header);
        out.push(String::new());
        let ghost head = out@.map_values(|s: String| s@);
        proof {
            assert(head =~= seq![
                "📁 Vista previa de: "@ + result.current_directory@,
                Seq::<char>::empty(),
            ]);
        }
        let mut directories: Vec<String> = Vec::new();
        let mut files: Vec<String> = Vec::new();
        let n = result.files.len();
        let mut i: usize = 0;
        proof {
            reveal(Seq::filter);
            assert(directories@.map_values(|s: String| s@) =~= dir_names(
                result.files@.take(0),
            ));
            assert(files@.map_values(|s: String| s@) =~= file_names(result.files@.take(0)));
        }
        while i < n
            invariant
                i <= n,
                n == result.files@.len(),
                directories@.map_values(|s: String| s@) == dir_names(result.files@.take(i as int)),
                files@.map_values(|s: String| s@) == file_names(result.files@.take(i as int)),
            decreases n - i,
        {
            proof {
                reveal(Seq::filter);
                assert(result.files@.take(i + 1 as int).drop_last() =~= result.files@.take(
                    i as int,
                ));
                assert(result.files@.take(i + 1 as int).last() == result.files@[i as int]);
            }
            if result.files[i].is_directory {
                directories.push(result.files[i].name.clone());
                proof {
                    assert(directories@.map_values(|s: String| s@) =~= dir_names(
                        result.files@.take(i as int),
                    ).push(result.files@[i as int].name@));
                    assert(dir_names(result.files@.take(i + 1 as int)) =~= dir_names(
                        result.files@.take(i as int),
                    ).push(result.files@[i as int].name@));
                    assert(file_names(result.files@.take(i + 1 as int)) == file_names(
                        result.files@.take(i as int),
                    ));
                }
            } else {
                files.push(result.files[i].name.clone());
                proof {
                    assert(files@.map_values(|s: String| s@) =~= file_names(
                        result.files@.take(i as int),
                    ).push(result.files@[i as int].name@));
                    assert(file_names(result.files@.take(i + 1 as int)) =~= file_names(
                        result.files@.take(i as int),
                    ).push(result.files@[i as int].name@));
                    assert(dir_names(result.files@.take(i + 1 as int)) == dir_names(
                        result.files@.take(i as int),
                    ));
                }
            }
            i = i + 1;
        }
        proof {
            assert(result.files@.take(n as int) =~= result.files@);
        }
        Self::push_preview_group(&mut out, "📁 Directorios:", "   📁 ", &directories);
        proof {
            assert(out@.map_values(|s: String| s@) =~= head + preview_group(
                "📁 Directorios:"@,
                "   📁 "@,
                dirs_model,
            ));
        }
        proof {
            assert(directories@.len() == dirs_model.len());
        }
        if directories.len() > 0 {
            let ghost pre = out@.map_values(|s: String| s@);
            out.push(String::new());
            proof {
                assert(out@.map_values(|s: String| s@) =~= pre.push(Seq::<char>::empty()));
            }
        }
        let ghost mid = out@.map_values(|s: String| s@);
        proof {
            assert(mid =~= head + preview_group("📁 Directorios:"@, "   📁 "@, dirs_model) + (
            if dirs_model.len() > 0 {
                seq![Seq::<char>::empty()]
            } else {
                seq![]
            }));
        }
        Self::push_preview_group(&mut out, "📄 Archivos:", "   📄 ", &files);
        proof {
            assert(out@.map_values(|s: String| s@) =~= mid + preview_group(
                "📄 Archivos:"@,
                "   📄 "@,
                plain_model,
            ));
            assert(out@.map_values(|s: String| s@) =~= preview_lines(*result));
            assert(out@.map_values(|s: String| s@)[0] == "📁 Vista previa de: "@
                + result.current_directory@);
            assert(out@.map_values(|s: String| s@)[1] == Seq::<char>::empty());
            assert(out@[0]@ == out@.map_values(|s: String| s@)[0]);
            assert(out@[1]@ == out@.map_values(|s: String| s@)[1]);
        }
        out
    }

    /// Appends one preview group: nothing for an empty name list, else the
    /// title, up to five marked names, and the count of the rest.
    fn push_preview_group(out: &mut Vec<String>, title: &str, marker: &str, names: &Vec<String>)
        ensures
            final(out)@.map_values(|s: String| s@) == old(out)@.map_values(|s: String| s@)
                + preview_group(title@, marker@, names@.map_values(|s: String| s@)),
    {
        let ghost before = old(out)@.map_values(|s: String| s@);
        let ghost names_model = names@.map_values(|s: String| s@);
        if names.len() == 0 {
            proof {
                assert(before + preview_group(title@, marker@, names_model) =~= before);
            }
            return ;
        }
        out.push(title.to_owned());
        let shown = if names.len() < 5 {
            names.len()
        } else {
            5
        };
        let mut k: usize = 0;
        while k < shown
            invariant
                k <= shown,
                shown <= names@.len(),
                shown == (if names_model.len() < 5 {
                    names_model.len() as int
                } else {
                    5
                }),
                names_model == names@.map_values(|s: String| s@),
                out@.map_values(|s: String| s@) == before + seq![title@] + names_model.take(
                    k as int,
                ).map_values(marked_fn(marker@)),
            decreases shown - k,
        {
            proof {
                assert(names_model.take(k + 1 as int).drop_last() =~= names_model.take(k as int));
                assert(names_model.take(k + 1 as int).last() == names_model[k as int]);
            }
            let mut line = marker.to_owned();
            line.append(names[k].as_str());
            out.push(line);
            proof {
                assert(line@ == marker@ + names_model[k as int]);
                assert(marked_fn(marker@)(names_model[k as int]) == marker@
                    + names_model[k as int]);
                assert(names_model.take(k + 1 as int).map_values(marked_fn(marker@))
                    =~= names_model.take(k as int).map_values(marked_fn(marker@)).push(
                    marker@ + names_model[k as int],
                ));
                assert(out@.map_values(|s: String| s@) =~= (before + seq![title@]
                    + names_model.take(k as int).map_values(marked_fn(marker@))).push(
                    marker@ + names_model[k as int],
                ));
                assert(out@.map_values(|s: String| s@) =~= before + seq![title@]
                    + names_model.take(k + 1 as int).map_values(marked_fn(marker@)));
            }
            k = k + 1;
        }
        if names.len() > 5 {
            let mut more = String::from_str("   ... y ");
            more.append(u64_to_string((names.len() - 5) as u64).as_str());
            more.append(" más");
            proof {
                assert(more@ == "   ... y "@ + dec_str((names_model.len() - 5) as nat)
                    + " más"@);
            }
            out.push(more);
            proof {
                assert(out@.map_values(|s: String| s@) =~= (before + seq![title@]
                    + names_model.take(5).map_values(marked_fn(marker@))).push(
                    "   ... y "@ + dec_str((names_model.len() - 5) as nat) + " más"@,
                ));
                assert(out@.map_values(|s: String| s@) =~= before + preview_group(
                    title@,
                    marker@,
                    names_model,
                ));
            }
        } else {
            proof {
                assert(names_model.take(shown as int) =~= names_model);
                assert(out@.map_values(|s: String| s@) =~= before + preview_group(
                    title@,
                    marker@,
                    names_model,
                ));
            }
        }
    }
}

} // verus!
