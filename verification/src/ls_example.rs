//! Worked examples of the listing command, run against a directory the
//! host has already scanned.
use vstd::prelude::*;
use crate::entities::{FileInfo, LsResult, SortBy};
use crate::ls_commands::{
    LsCommandsUseCase,
    LsCommandParser,
    LsCommand,
    LsOptions,
    LsParse,
    sum_sizes,
    parse_ls_tokens,
    default_ls_options,
};
use crate::ls_display::{LsDisplayComponent, ls_result_lines, ls_error_lines, ls_help_lines};
use crate::pipeline::listing_of;
use crate::text::{contains_str, spec_contains, split_ws};

verus! {

/// A copy of a scanned entry list, so one scan can feed several examples.
pub fn clone_files(v: &Vec<FileInfo>) -> (r: Vec<FileInfo>)
    ensures
        r@ == v@,
{
    let n = v.len();
    let mut r: Vec<FileInfo> = Vec::new();
    let mut i: usize = 0;
    while i < n
        invariant
            i <= n,
            n == v@.len(),
            r@ == v@.take(i as int),
        decreases n - i,
    {
        let f = &v[i];
        let copy = FileInfo {
            name: f.name.clone(),
            path: f.path.clone(),
            is_directory: f.is_directory,
            size: f.size,
            modified: f.modified,
            permissions: f.permissions.clone(),
            owner: f.owner.clone(),
            group: f.group.clone(),
        };
        proof {
            assert(copy == v@[i as int]);
            assert(v@.take(i + 1 as int) =~= v@.take(i as int).push(v@[i as int]));
        }
        r.push(copy);
        i = i + 1;
    }
    proof {
        assert(v@.take(n as int) =~= v@);
    }
    r
}

/// The options the example runner detects in the raw command text, by
/// substring, exactly as the pipeline's repository detects them.
pub open spec fn detected_options(c: Seq<char>) -> LsOptions {
    LsOptions {
        show_hidden: spec_contains(c, "-a"@),
        show_only_directories: false,
        show_only_files: false,
        sort_by: if spec_contains(c, "-t"@) {
            SortBy::Modified
        } else if spec_contains(c, "-S"@) {
            SortBy::Size
        } else {
            SortBy::Name
        },
        long_format: spec_contains(c, "-l"@),
        human_readable: spec_contains(c, "-h"@),
    }
}

/// What one worked example answers for the raw command `cmd` over the
/// scanned `entries`: the rendered listing of a shaped listing when the
/// command parses (rendered under the substring-detected options), and the
/// rendered error otherwise.
pub open spec fn example_block(
    cmd: Seq<char>,
    entries: Seq<FileInfo>,
    dir: Seq<char>,
    lines: Seq<Seq<char>>,
) -> bool {
    let toks = split_ws(cmd);
    if toks.len() == 0 || toks[0] != "ls"@ {
        lines == ls_error_lines("No es un comando ls"@)
    } else {
        match parse_ls_tokens(toks.drop_first(), default_ls_options(), Option::None) {
            LsParse::Parsed(p, o) => exists|res: LsResult|
                #[trigger] listing_of(res, entries, dir, o) && lines == ls_result_lines(
                    res,
                    detected_options(cmd),
                ),
            LsParse::UnknownFlag(c) => lines == ls_error_lines(
                "Error: "@ + "Opción desconocida: -"@ + seq![c],
            ),
            LsParse::TooManyArguments => lines == ls_error_lines(
                "Error: "@ + "Demasiados argumentos"@,
            ),
        }
    }
}

/// Demonstrations of the listing command.
pub struct LsExample;

impl LsExample {
    /// Runs one listing command against the scanned entries: the rendered
    /// listing for a well-formed command, the rendered error otherwise.
    /// The options that shape the rendering are read from the command text
    /// the same way the original pipeline reads them: by substring.
    pub fn execute_ls_command(command: &str, entries: Vec<FileInfo>, current_directory: String) -> (r:
        Vec<String>)
        requires
            sum_sizes(entries@) <= u64::MAX,
            entries@.len() < usize::MAX,
        ensures
            example_block(
                command@,
                entries@,
                current_directory@,
                r@.map_values(|s: String| s@),
            ),
            r@.len() >= 2,
    {
        let use_case = LsCommandsUseCase::new();
        let ghost entries_view = entries@;
        let ghost dir_view = current_directory@;
        let parsed = LsCommandParser::parse_command(command);
        let ghost parsed_g = parsed;
        match parsed.execute(&use_case, entries, current_directory) {
            Ok(result) => {
                let mut options = LsOptions::default();
                if contains_str(command, "-l") {
                    options.long_format = true;
                }
                if contains_str(command, "-a") {
                    options.show_hidden = true;
                }
                if contains_str(command, "-h") {
                    options.human_readable = true;
                }
                if contains_str(command, "-S") {
                    options.sort_by = SortBy::Size;
                }
                if contains_str(command, "-t") {
                    options.sort_by = SortBy::Modified;
                }
                proof {
                    assert(options == detected_options(command@));
                }
                let lines = LsDisplayComponent::render(&result, &options);
                proof {
                    let toks = split_ws(command@);
                    assert(!(parsed_g is NotLsCommand));
                    assert(toks.len() > 0 && toks[0] == "ls"@);
                    let model = parse_ls_tokens(
                        toks.drop_first(),
                        default_ls_options(),
                        Option::None,
                    );
                    match parsed_g {
                        LsCommand::List(p, o) => {
                            assert(model is Parsed);
                            assert(listing_of(result, entries_view, dir_view, o));
                            assert(lines@.map_values(|s: String| s@) == ls_result_lines(
                                result,
                                detected_options(command@),
                            ));
                            assert(example_block(
                                command@,
                                entries_view,
                                dir_view,
                                lines@.map_values(|s: String| s@),
                            ));
                        },
                        _ => {
                            assert(false);
                        },
                    }
                }
                lines
            },
            Err(e) => {
                let lines = LsDisplayComponent::render_error(e.as_str());
                proof {
                    let toks = split_ws(command@);
                    let lv = lines@.map_values(|s: String| s@);
                    match parsed_g {
                        LsCommand::NotLsCommand => {
                            assert(e@ == "No es un comando ls"@);
                            assert(lv == ls_error_lines("No es un comando ls"@));
                        },
                        LsCommand::Invalid(m) => {
                            assert(toks.len() > 0 && toks[0] == "ls"@);
                            let model = parse_ls_tokens(
                                toks.drop_first(),
                                default_ls_options(),
                                Option::None,
                            );
                            assert(e@ == "Error: "@ + m@);
                            match model {
                                LsParse::UnknownFlag(c) => {
                                    assert(m@ == "Opción desconocida: -"@ + seq![c]);
                                    assert(e@ =~= "Error: "@ + "Opción desconocida: -"@
                                        + seq![c]);
                                },
                                LsParse::TooManyArguments => {
                                    assert(m@ == "Demasiados argumentos"@);
                                    assert(e@ =~= "Error: "@ + "Demasiados argumentos"@);
                                },
                                LsParse::Parsed(p, o) => {
                                    assert(false);
                                },
                            }
                        },
                        _ => {
                            assert(false);
                        },
                    }
                }
                lines
            },
        }
    }

    /// A tour of the listing command over one scanned directory: the plain
    /// form, the long form, hidden entries, readable sizes, the size order
    /// — each example's block followed by one blank line — and the help
    /// screen.
    pub fn run_examples(entries: Vec<FileInfo>, current_directory: String) -> (r: Vec<String>)
        requires
            sum_sizes(entries@) <= u64::MAX,
            entries@.len() < usize::MAX,
        ensures
            exists|b1: Seq<Seq<char>>, b2: Seq<Seq<char>>, b3: Seq<Seq<char>>, b4: Seq<
                Seq<char>,
            >, b5: Seq<Seq<char>>|
                {
                    &&& #[trigger] example_block("ls"@, entries@, current_directory@, b1)
                    &&& #[trigger] example_block("ls -l"@, entries@, current_directory@, b2)
                    &&& #[trigger] example_block("ls -a"@, entries@, current_directory@, b3)
                    &&& #[trigger] example_block("ls -lh"@, entries@, current_directory@, b4)
                    &&& #[trigger] example_block("ls -S"@, entries@, current_directory@, b5)
                    &&& r@.map_values(|s: String| s@) == seq!["🚀 Ejemplos del comando ls:"@] + b1
                        + seq![Seq::<char>::empty()] + b2 + seq![Seq::<char>::empty()] + b3
                        + seq![Seq::<char>::empty()] + b4 + seq![Seq::<char>::empty()] + b5
                        + seq![Seq::<char>::empty()] + ls_help_lines()
                },
            r@.len() >= 1,
            r@[0]@ == "🚀 Ejemplos del comando ls:"@,
    {
        let ghost entries_view = entries@;
        let ghost dir_view = current_directory@;
        let mut out: Vec<String> = Vec::new();
        out.push(String::from_str("🚀 Ejemplos del comando ls:"));
        let mut block1 = Self::execute_ls_command(
            "ls",
            clone_files(&entries),
            current_directory.clone(),
        );
        let ghost b1 = block1@.map_values(|s: String| s@);
        out.append(&mut block1);
        out.push(String::new());
        let mut block2 = Self::execute_ls_command(
            "ls -l",
            clone_files(&entries),
            current_directory.clone(),
        );
        let ghost b2 = block2@.map_values(|s: String| s@);
        out.append(&mut block2);
        out.push(String::new());
        let mut block3 = Self::execute_ls_command(
            "ls -a",
            clone_files(&entries),
            current_directory.clone(),
        );
        let ghost b3 = block3@.map_values(|s: String| s@);
        out.append(&mut block3);
        out.push(String::new());
        let mut block4 = Self::execute_ls_command(
            "ls -lh",
            clone_files(&entries),
            current_directory.clone(),
        );
        let ghost b4 = block4@.map_values(|s: String| s@);
        out.append(&mut block4);
        out.push(String::new());
        let mut block5 = Self::execute_ls_command(
            "ls -S",
            clone_files(&entries),
            current_directory.clone(),
        );
        let ghost b5 = block5@.map_values(|s: String| s@);
        out.append(&mut block5);
        out.push(String::new());
        let mut help = LsDisplayComponent::render_help();
        out.append(&mut help);
        proof {
            assert(out@.map_values(|s: String| s@) =~= seq!["🚀 Ejemplos del comando ls:"@] + b1
                + seq![Seq::<char>::empty()] + b2 + seq![Seq::<char>::empty()] + b3
                + seq![Seq::<char>::empty()] + b4 + seq![Seq::<char>::empty()] + b5
                + seq![Seq::<char>::empty()] + ls_help_lines());
        }
        out
    }

    /// A preview of the scanned directory: its totals rendered briefly.
    pub fn show_preview(entries: Vec<FileInfo>, current_directory: String) -> (r: Vec<String>)
        requires
            sum_sizes(entries@) <= u64::MAX,
            entries@.len() < usize::MAX,
        ensures
            r@.len() >= 2,
            r@[0]@ == "📁 Vista previa de: "@ + current_directory@,
    {
        let use_case = LsCommandsUseCase::new();
        let result = use_case.build_listing(entries, current_directory);
        let r = LsDisplayComponent::render_preview(&result);
        r
    }
}

} // verus!
