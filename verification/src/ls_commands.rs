//! The directory listing engine: totals over scanned entries, sorting and
//! filtering policies, and the parser for the listing command's flags.
use vstd::prelude::*;
use crate::entities::{FileInfo, LsResult, SortBy, sorted_by, file_le, sort_files_by};
use crate::text::{split_ws, split_whitespace, str_eq};

verus! {

/// The policies a listing is shaped by.
#[derive(Debug, Clone, Copy)]
pub struct LsOptions {
    pub show_hidden: bool,
    pub show_only_directories: bool,
    pub show_only_files: bool,
    pub sort_by: SortBy,
    pub long_format: bool,
    pub human_readable: bool,
}

impl Default for LsOptions {
    /// Plain short listing: hidden entries out, sorted by name.
    fn default() -> (r: LsOptions)
        ensures
            r == default_ls_options(),
    {
        LsOptions {
            show_hidden: false,
            show_only_directories: false,
            show_only_files: false,
            sort_by: SortBy::Name,
            long_format: false,
            human_readable: false,
        }
    }
}

/// The options every listing starts from.
pub open spec fn default_ls_options() -> LsOptions {
    LsOptions {
        show_hidden: false,
        show_only_directories: false,
        show_only_files: false,
        sort_by: SortBy::Name,
        long_format: false,
        human_readable: false,
    }
}

/// Whether an entry survives the filters: dot-named entries only with
/// `show_hidden`; the directory-only and file-only filters each keep their
/// kind (both together keep nothing).
pub open spec fn keep_file(options: LsOptions, f: FileInfo) -> bool {
    &&& (options.show_hidden || !(f.name@.len() > 0 && f.name@[0] == '.'))
    &&& (!options.show_only_directories || f.is_directory)
    &&& (!options.show_only_files || !f.is_directory)
}

fn keep_file_exec(options: &LsOptions, f: &FileInfo) -> (r: bool)
    ensures
        r == keep_file(*options, *f),
{
    let dot_ok = if options.show_hidden {
        true
    } else {
        let n = f.name.as_str().unicode_len();
        if n == 0 {
            true
        } else {
            f.name.as_str().get_char(0) != '.'
        }
    };
    let dir_ok = !options.show_only_directories || f.is_directory;
    let file_ok = !options.show_only_files || !f.is_directory;
    dot_ok && dir_ok && file_ok
}

/// How many entries of `s` are files (not directories).
pub open spec fn count_plain_files(s: Seq<FileInfo>) -> nat
    decreases s.len(),
{
    if s.len() == 0 {
        0
    } else {
        count_plain_files(s.drop_last()) + (if s.last().is_directory {
            0nat
        } else {
            1nat
        })
    }
}

/// How many entries of `s` are directories.
pub open spec fn count_dirs(s: Seq<FileInfo>) -> nat
    decreases s.len(),
{
    if s.len() == 0 {
        0
    } else {
        count_dirs(s.drop_last()) + (if s.last().is_directory {
            1nat
        } else {
            0nat
        })
    }
}

/// The bytes of all plain files in `s`; directories contribute nothing.
pub open spec fn sum_sizes(s: Seq<FileInfo>) -> int
    decreases s.len(),
{
    if s.len() == 0 {
        0
    } else {
        sum_sizes(s.drop_last()) + (if s.last().is_directory {
            0int
        } else {
            s.last().size as int
        })
    }
}

/// Everything a filtered sequence holds was already there.
proof fn lemma_filter_subset(s: Seq<FileInfo>, p: spec_fn(FileInfo) -> bool)
    ensures
        forall|k: int| 0 <= k < s.filter(p).len() ==> s.contains(#[trigger] s.filter(p)[k]),
    decreases s.len(),
{
    reveal(Seq::filter);
    if s.len() > 0 {
        let d = s.drop_last();
        lemma_filter_subset(d, p);
        assert forall|k: int| 0 <= k < s.filter(p).len() implies s.contains(
            #[trigger] s.filter(p)[k],
        ) by {
            if k < d.filter(p).len() {
                assert(s.filter(p)[k] == d.filter(p)[k]);
                assert(d.contains(d.filter(p)[k]));
                let j = choose|j: int| 0 <= j < d.len() && d[j] == d.filter(p)[k];
                assert(s[j] == d[j]);
            } else {
                assert(s.filter(p)[k] == s.last());
                assert(s[s.len() - 1] == s.last());
            }
        }
    }
}

/// Filtering a sorted run leaves it sorted.
proof fn lemma_filter_sorted(by: SortBy, s: Seq<FileInfo>, p: spec_fn(FileInfo) -> bool)
    requires
        sorted_by(by, s),
    ensures
        sorted_by(by, s.filter(p)),
    decreases s.len(),
{
    reveal(Seq::filter);
    if s.len() > 0 {
        let d = s.drop_last();
        assert forall|i: int, j: int| 0 <= i < j < d.len() implies file_le(by, d[i], d[j]) by {
            assert(d[i] == s[i] && d[j] == s[j]);
        }
        lemma_filter_sorted(by, d, p);
        if p(s.last()) {
            lemma_filter_subset(d, p);
            let out = s.filter(p);
            assert(out == d.filter(p).push(s.last()));
            assert forall|i: int, j: int| 0 <= i < j < out.len() implies file_le(
                by,
                out[i],
                out[j],
            ) by {
                if j < out.len() - 1 {
                    assert(out[i] == d.filter(p)[i] && out[j] == d.filter(p)[j]);
                } else {
                    assert(out[j] == s.last());
                    assert(out[i] == d.filter(p)[i]);
                    assert(d.contains(d.filter(p)[i]));
                    let m = choose|m: int| 0 <= m < d.len() && d[m] == d.filter(p)[i];
                    assert(s[m] == d[m]);
                    assert(file_le(by, s[m], s[s.len() - 1]));
                }
            }
        }
    }
}

/// Filtering a sequence and filtering its multiset agree.
proof fn lemma_filter_to_multiset(s: Seq<FileInfo>, p: spec_fn(FileInfo) -> bool)
    ensures
        s.filter(p).to_multiset() == s.to_multiset().filter(p),
    decreases s.len(),
{
    broadcast use vstd::seq_lib::group_to_multiset_ensures;
    broadcast use vstd::multiset::group_multiset_axioms;

    reveal(Seq::filter);
    if s.len() == 0 {
        assert(s.filter(p).to_multiset() =~= s.to_multiset().filter(p));
    } else {
        let d = s.drop_last();
        lemma_filter_to_multiset(d, p);
        assert(s =~= d.push(s.last()));
        assert(s.to_multiset() == d.push(s.last()).to_multiset());
        if p(s.last()) {
            assert(s.filter(p).to_multiset() == d.filter(p).to_multiset().insert(s.last()));
            assert(d.to_multiset().filter(p).insert(s.last()) =~= d.to_multiset().insert(
                s.last(),
            ).filter(p));
        } else {
            assert(s.filter(p).to_multiset() == d.to_multiset().filter(p));
            assert(d.to_multiset().filter(p) =~= d.to_multiset().insert(s.last()).filter(p));
        }
    }
}

/// The filter the options stand for, as one predicate value.
pub open spec fn keep_pred(options: LsOptions) -> spec_fn(FileInfo) -> bool {
    |f: FileInfo| keep_file(options, f)
}

/// The listing engine.
pub struct LsCommandsUseCase;

impl LsCommandsUseCase {
    pub fn new() -> (r: LsCommandsUseCase) {
        LsCommandsUseCase
    }

    /// Builds the listing for a directory whose entries the host scanned:
    /// the totals aggregate every entry, the entry list is sorted by the
    /// chosen key and then filtered by the chosen policies.
    pub fn list_directory_with_options(
        &self,
        entries: Vec<FileInfo>,
        current_directory: String,
        options: &LsOptions,
    ) -> (r: LsResult)
        requires
            sum_sizes(entries@) <= u64::MAX,
            entries@.len() < usize::MAX,
        ensures
            r.total_files == count_plain_files(entries@),
            r.total_directories == count_dirs(entries@),
            r.total_size == sum_sizes(entries@),
            r.current_directory@ == current_directory@,
            sorted_by(options.sort_by, r.files@),
            r.files@.to_multiset() == entries@.to_multiset().filter(keep_pred(*options)),
    {
        let ghost entry_seq = entries@;
        let mut result = self.build_listing(entries, current_directory);
        sort_files_by(&mut result.files, options.sort_by);
        let ghost sorted_seq = result.files@;
        Self::retain_kept(&mut result.files, options);
        proof {
            lemma_filter_sorted(options.sort_by, sorted_seq, keep_pred(*options));
            lemma_filter_to_multiset(sorted_seq, keep_pred(*options));
        }
        result
    }

    /// Folds the scanned entries into a listing with exact totals, in the
    /// order they were scanned.
    pub fn build_listing(&self, entries: Vec<FileInfo>, current_directory: String) -> (r:
        LsResult)
        requires
            sum_sizes(entries@) <= u64::MAX,
            entries@.len() < usize::MAX,
        ensures
            r.files@ == entries@,
            r.total_files == count_plain_files(entries@),
            r.total_directories == count_dirs(entries@),
            r.total_size == sum_sizes(entries@),
            r.current_directory@ == current_directory@,
    {
        let ghost orig = entries@;
        let ghost dirv = current_directory@;
        let mut entries = entries;
        let mut result = LsResult::new(current_directory);
        let n = entries.len();
        let mut i: usize = 0;
        proof {
            lemma_counts_bounded(orig);
        }
        while i < n
            invariant
                i <= n,
                n == orig.len() < usize::MAX,
                sum_sizes(orig) <= u64::MAX,
                entries@ == orig.skip(i as int),
                result.files@ == orig.take(i as int),
                result.total_files == count_plain_files(orig.take(i as int)),
                result.total_directories == count_dirs(orig.take(i as int)),
                result.total_size == sum_sizes(orig.take(i as int)),
                result.current_directory@ == dirv,
            decreases n - i,
        {
            proof {
                assert(orig.take(i + 1 as int).drop_last() =~= orig.take(i as int));
                assert(orig.take(i + 1 as int).last() == orig[i as int]);
                lemma_counts_prefix(orig, i + 1 as int);
                lemma_counts_bounded(orig.take(i + 1 as int));
                assert(entries@[0] == orig[i as int]);
            }
            let file = entries.remove(0);
            proof {
                assert(entries@ =~= orig.skip(i + 1 as int));
            }
            result.add_file(file);
            i = i + 1;
        }
        proof {
            assert(orig.take(n as int) =~= orig);
        }
        result
    }

    /// Removes, in place, every entry the filters reject.
    fn retain_kept(files: &mut Vec<FileInfo>, options: &LsOptions)
        ensures
            final(files)@ == old(files)@.filter(keep_pred(*options)),
    {
        let ghost before = old(files)@;
        let ghost mut j: int = 0;
        let mut i: usize = 0;
        proof {
            reveal(Seq::filter);
            assert(before.take(0).filter(keep_pred(*options)) =~= Seq::<FileInfo>::empty());
            assert(files@ =~= before.take(0).filter(keep_pred(*options)) + before.skip(0));
        }
        while i < files.len()
            invariant
                0 <= j <= before.len(),
                files@ == before.take(j).filter(keep_pred(*options)) + before.skip(j),
                i == before.take(j).filter(keep_pred(*options)).len(),
            decreases before.len() - j,
        {
            proof {
                reveal(Seq::filter);
                assert(before.take(j + 1).drop_last() =~= before.take(j));
                assert(before.take(j + 1).last() == before[j]);
                assert(files@[i as int] == before[j]);
            }
            let keep = keep_file_exec(options, &files[i]);
            if keep {
                proof {
                    assert(files@ =~= before.take(j + 1).filter(keep_pred(*options))
                        + before.skip(j + 1));
                }
                i = i + 1;
            } else {
                files.remove(i);
                proof {
                    assert(files@ =~= before.take(j + 1).filter(keep_pred(*options))
                        + before.skip(j + 1));
                }
            }
            proof {
                j = j + 1;
            }
        }
        proof {
            reveal(Seq::filter);
            before.take(j).lemma_filter_len(keep_pred(*options));
            assert(j == before.len());
            assert(before.take(j) =~= before);
            assert(before.skip(j) =~= Seq::<FileInfo>::empty());
            assert(files@ =~= before.filter(keep_pred(*options)));
        }
    }

    /// The permission text of an entry: a type marker and the three
    /// read-write-execute triples of a POSIX mode word. On hosts without
    /// mode bits the caller passes a fixed placeholder mode instead.
    pub fn format_permissions(&self, is_directory: bool, mode: u32) -> (r: String)
        ensures
            r@.len() == 10,
            r@[0] == (if is_directory {
                'd'
            } else {
                '-'
            }),
            r@[1] == (if (mode >> 6) & 4 != 0 {
                'r'
            } else {
                '-'
            }),
            r@[2] == (if (mode >> 6) & 2 != 0 {
                'w'
            } else {
                '-'
            }),
            r@[3] == (if (mode >> 6) & 1 != 0 {
                'x'
            } else {
                '-'
            }),
            r@[4] == (if (mode >> 3) & 4 != 0 {
                'r'
            } else {
                '-'
            }),
            r@[5] == (if (mode >> 3) & 2 != 0 {
                'w'
            } else {
                '-'
            }),
            r@[6] == (if (mode >> 3) & 1 != 0 {
                'x'
            } else {
                '-'
            }),
            r@[7] == (if mode & 4 != 0 {
                'r'
            } else {
                '-'
            }),
            r@[8] == (if mode & 2 != 0 {
                'w'
            } else {
                '-'
            }),
            r@[9] == (if mode & 1 != 0 {
                'x'
            } else {
                '-'
            }),
    {
        let mut r = String::new();
        crate::text::push_char(&mut r, if is_directory {
            'd'
        } else {
            '-'
        });
        let owner = mode >> 6;
        let group = mode >> 3;
        crate::text::push_char(&mut r, if owner & 4 != 0 {
            'r'
        } else {
            '-'
        });
        crate::text::push_char(&mut r, if owner & 2 != 0 {
            'w'
        } else {
            '-'
        });
        crate::text::push_char(&mut r, if owner & 1 != 0 {
            'x'
        } else {
            '-'
        });
        crate::text::push_char(&mut r, if group & 4 != 0 {
            'r'
        } else {
            '-'
        });
        crate::text::push_char(&mut r, if group & 2 != 0 {
            'w'
        } else {
            '-'
        });
        crate::text::push_char(&mut r, if group & 1 != 0 {
            'x'
        } else {
            '-'
        });
        crate::text::push_char(&mut r, if mode & 4 != 0 {
            'r'
        } else {
            '-'
        });
        crate::text::push_char(&mut r, if mode & 2 != 0 {
            'w'
        } else {
            '-'
        });
        crate::text::push_char(&mut r, if mode & 1 != 0 {
            'x'
        } else {
            '-'
        });
        r
    }

    /// Totals over a directory the host scanned.
    pub fn get_directory_stats(&self, entries: &Vec<FileInfo>, current_directory: String) -> (r:
        DirectoryStats)
        requires
            sum_sizes(entries@) <= u64::MAX,
        ensures
            r.total_items == entries@.len(),
            r.total_files == count_plain_files(entries@),
            r.total_directories == count_dirs(entries@),
            r.total_size == sum_sizes(entries@),
            r.current_directory@ == current_directory@,
    {
        let n = entries.len();
        let mut total_files: usize = 0;
        let mut total_directories: usize = 0;
        let mut total_size: u64 = 0;
        let mut i: usize = 0;
        proof {
            lemma_counts_bounded(entries@);
        }
        while i < n
            invariant
                i <= n,
                n == entries@.len(),
                sum_sizes(entries@) <= u64::MAX,
                total_files == count_plain_files(entries@.take(i as int)),
                total_directories == count_dirs(entries@.take(i as int)),
                total_size == sum_sizes(entries@.take(i as int)),
            decreases n - i,
        {
            proof {
                assert(entries@.take(i + 1 as int).drop_last() =~= entries@.take(i as int));
                assert(entries@.take(i + 1 as int).last() == entries@[i as int]);
                lemma_counts_prefix(entries@, i + 1 as int);
                lemma_counts_bounded(entries@.take(i + 1 as int));
            }
            if entries[i].is_directory {
                total_directories = total_directories + 1;
            } else {
                total_files = total_files + 1;
                total_size = total_size + entries[i].size;
            }
            i = i + 1;
        }
        proof {
            assert(entries@.take(n as int) =~= entries@);
        }
        DirectoryStats {
            total_items: n,
            total_files,
            total_directories,
            total_size,
            current_directory,
        }
    }
}

/// The sizes of any prefix of a scan stay within the whole scan's total.
pub proof fn lemma_sum_sizes_prefix(s: Seq<FileInfo>, i: int)
    requires
        0 <= i <= s.len(),
    ensures
        0 <= sum_sizes(s.take(i)) <= sum_sizes(s),
{
    lemma_counts_prefix(s, i);
}

/// The counts over any prefix stay within the whole sequence's counts.
proof fn lemma_counts_prefix(s: Seq<FileInfo>, i: int)
    requires
        0 <= i <= s.len(),
    ensures
        count_plain_files(s.take(i)) <= count_plain_files(s),
        count_dirs(s.take(i)) <= count_dirs(s),
        0 <= sum_sizes(s.take(i)) <= sum_sizes(s),
    decreases s.len() - i,
{
    lemma_sum_sizes_nonneg(s.take(i));
    if i == s.len() {
        assert(s.take(i) =~= s);
    } else {
        lemma_counts_prefix(s, i + 1);
        assert(s.take(i + 1).drop_last() =~= s.take(i));
    }
}

proof fn lemma_sum_sizes_nonneg(s: Seq<FileInfo>)
    ensures
        sum_sizes(s) >= 0,
    decreases s.len(),
{
    if s.len() > 0 {
        lemma_sum_sizes_nonneg(s.drop_last());
    }
}

/// Counts are bounded by the number of entries.
proof fn lemma_counts_bounded(s: Seq<FileInfo>)
    ensures
        count_plain_files(s) <= s.len(),
        count_dirs(s) <= s.len(),
    decreases s.len(),
{
    if s.len() > 0 {
        lemma_counts_bounded(s.drop_last());
    }
}

/// Totals over a scanned directory.
#[derive(Debug, Clone)]
pub struct DirectoryStats {
    pub total_items: usize,
    pub total_files: usize,
    pub total_directories: usize,
    pub total_size: u64,
    pub current_directory: String,
}

/// The flags the listing command understands.
pub open spec fn flag_valid(c: char) -> bool {
    c == 'a' || c == 'd' || c == 'f' || c == 'l' || c == 'h' || c == 'S' || c == 't'
}

/// What one flag does to the options.
pub open spec fn apply_flag(o: LsOptions, c: char) -> LsOptions {
    if c == 'a' {
        LsOptions { show_hidden: true, ..o }
    } else if c == 'd' {
        LsOptions { show_only_directories: true, ..o }
    } else if c == 'f' {
        LsOptions { show_only_files: true, ..o }
    } else if c == 'l' {
        LsOptions { long_format: true, ..o }
    } else if c == 'h' {
        LsOptions { human_readable: true, ..o }
    } else if c == 'S' {
        LsOptions { sort_by: SortBy::Size, ..o }
    } else if c == 't' {
        LsOptions { sort_by: SortBy::Modified, ..o }
    } else {
        o
    }
}

/// Folds a run of flag characters into the options; the first unknown flag
/// aborts the scan and is reported.
pub open spec fn scan_flags(o: LsOptions, cs: Seq<char>) -> Result<LsOptions, char>
    decreases cs.len(),
{
    if cs.len() == 0 {
        Result::Ok(o)
    } else if !flag_valid(cs[0]) {
        Result::Err(cs[0])
    } else {
        scan_flags(apply_flag(o, cs[0]), cs.drop_first())
    }
}

/// The outcome of reading the tokens after the command name.
pub enum LsParse {
    Parsed(Option<Seq<char>>, LsOptions),
    UnknownFlag(char),
    TooManyArguments,
}

/// Reads the remaining tokens: a token starting with a dash carries flags,
/// any other token is the path, and a second path is one too many.
pub open spec fn parse_ls_tokens(
    toks: Seq<Seq<char>>,
    o: LsOptions,
    path: Option<Seq<char>>,
) -> LsParse
    decreases toks.len(),
{
    if toks.len() == 0 {
        LsParse::Parsed(path, o)
    } else {
        let t = toks[0];
        if t.len() > 0 && t[0] == '-' {
            match scan_flags(o, t.drop_first()) {
                Result::Ok(o2) => parse_ls_tokens(toks.drop_first(), o2, path),
                Result::Err(c) => LsParse::UnknownFlag(c),
            }
        } else {
            if path is Some {
                LsParse::TooManyArguments
            } else {
                parse_ls_tokens(toks.drop_first(), o, Option::Some(t))
            }
        }
    }
}

/// The view of an optional string.
pub open spec fn opt_view(p: Option<String>) -> Option<Seq<char>> {
    match p {
        Option::Some(s) => Option::Some(s@),
        Option::None => Option::None,
    }
}

/// The parsed command, ready to run against a scanned directory.
#[derive(Debug, Clone)]
pub enum LsCommand {
    List(Option<String>, LsOptions),
    Stats(Option<String>),
    Invalid(String),
    NotLsCommand,
}

/// Whether an executable parse result carries exactly what the model says.
pub open spec fn reflects(r: LsCommand, m: LsParse) -> bool {
    match m {
        LsParse::Parsed(p, o) => (match r {
            LsCommand::List(path, opts) => opt_view(path) == p && opts == o,
            _ => false,
        }),
        LsParse::UnknownFlag(c) => (match r {
            LsCommand::Invalid(msg) => msg@ == "Opción desconocida: -"@ + seq![c],
            _ => false,
        }),
        LsParse::TooManyArguments => (match r {
            LsCommand::Invalid(msg) => msg@ == "Demasiados argumentos"@,
            _ => false,
        }),
    }
}

fn scan_flags_exec(o: LsOptions, t: &str, i: usize) -> (r: Result<LsOptions, char>)
    requires
        i <= t@.len(),
    ensures
        r == scan_flags(o, t@.skip(i as int)),
    decreases t@.len() - i,
{
    if i == t.unicode_len() {
        Ok(o)
    } else {
        let c = t.get_char(i);
        proof {
            assert(t@.skip(i as int)[0] == t@[i as int]);
            assert(t@.skip(i as int).drop_first() =~= t@.skip(i + 1 as int));
        }
        let applied: LsOptions = if c == 'a' {
            LsOptions { show_hidden: true, ..o }
        } else if c == 'd' {
            LsOptions { show_only_directories: true, ..o }
        } else if c == 'f' {
            LsOptions { show_only_files: true, ..o }
        } else if c == 'l' {
            LsOptions { long_format: true, ..o }
        } else if c == 'h' {
            LsOptions { human_readable: true, ..o }
        } else if c == 'S' {
            LsOptions { sort_by: SortBy::Size, ..o }
        } else if c == 't' {
            LsOptions { sort_by: SortBy::Modified, ..o }
        } else {
            return Err(c);
        };
        scan_flags_exec(applied, t, i + 1)
    }
}

fn parse_tokens_exec(toks: &Vec<String>, idx: usize, o: LsOptions, path: Option<String>) -> (r:
    LsCommand)
    requires
        idx <= toks@.len(),
    ensures
        reflects(
            r,
            parse_ls_tokens(
                toks@.map_values(|t: String| t@).skip(idx as int),
                o,
                opt_view(path),
            ),
        ),
    decreases toks@.len() - idx,
{
    let ghost all = toks@.map_values(|t: String| t@);
    if idx == toks.len() {
        LsCommand::List(path, o)
    } else {
        let t = &toks[idx];
        proof {
            assert(all.skip(idx as int)[0] == all[idx as int]);
            assert(all.skip(idx as int).drop_first() =~= all.skip(idx + 1 as int));
        }
        let tn = t.as_str().unicode_len();
        if tn > 0 && t.as_str().get_char(0) == '-' {
            proof {
                assert(t@.skip(1) =~= all[idx as int].drop_first());
            }
            match scan_flags_exec(o, t.as_str(), 1) {
                Ok(o2) => parse_tokens_exec(toks, idx + 1, o2, path),
                Err(c) => {
                    let mut msg = String::from_str("Opción desconocida: -");
                    crate::text::push_char(&mut msg, c);
                    proof {
                        assert(msg@ =~= "Opción desconocida: -"@ + seq![c]);
                    }
                    LsCommand::Invalid(msg)
                },
            }
        } else {
            match path {
                Some(p) => LsCommand::Invalid(String::from_str("Demasiados argumentos")),
                None => parse_tokens_exec(toks, idx + 1, o, Some(t.clone())),
            }
        }
    }
}

/// The parser for the listing command's raw text.
pub struct LsCommandParser;

impl LsCommandParser {
    /// Splits the command on whitespace; anything not led by `ls` is not a
    /// listing command, and the remaining tokens give the options and the
    /// optional path, exactly as the token model reads them.
    pub fn parse_command(command: &str) -> (r: LsCommand)
        ensures
            (split_ws(command@).len() == 0 || split_ws(command@)[0] != "ls"@) <==> r
                is NotLsCommand,
            split_ws(command@).len() > 0 && split_ws(command@)[0] == "ls"@ ==> reflects(
                r,
                parse_ls_tokens(
                    split_ws(command@).drop_first(),
                    default_ls_options(),
                    Option::None,
                ),
            ),
    {
        let toks = split_whitespace(command);
        if toks.len() == 0 {
            return LsCommand::NotLsCommand;
        }
        if !str_eq(toks[0].as_str(), "ls") {
            proof {
                assert(toks@.map_values(|t: String| t@)[0] == split_ws(command@)[0]);
            }
            return LsCommand::NotLsCommand;
        }
        proof {
            assert(toks@.map_values(|t: String| t@).skip(1) =~= split_ws(command@).drop_first());
        }
        parse_tokens_exec(&toks, 1, LsOptions::default(), None)
    }

    /// Whether the text is a listing command at all.
    pub fn is_ls_command(command: &str) -> (r: bool)
        ensures
            r == (split_ws(command@).len() > 0 && split_ws(command@)[0] == "ls"@),
    {
        let toks = split_whitespace(command);
        if toks.len() == 0 {
            false
        } else {
            let r = str_eq(toks[0].as_str(), "ls");
            proof {
                assert(toks@.map_values(|t: String| t@)[0] == split_ws(command@)[0]);
            }
            r
        }
    }
}

impl LsCommand {
    /// Runs the parsed command against a directory the host scanned: a
    /// listing is shaped by its options, an invalid command reports its
    /// message, and other text is refused.
    pub fn execute(self, use_case: &LsCommandsUseCase, entries: Vec<FileInfo>, current_directory: String) -> (r:
        Result<LsResult, String>)
        requires
            sum_sizes(entries@) <= u64::MAX,
            entries@.len() < usize::MAX,
        ensures
            self matches LsCommand::List(path, opts) ==> (r matches Ok(res) && res.total_files
                == count_plain_files(entries@) && res.total_directories == count_dirs(entries@)
                && res.total_size == sum_sizes(entries@) && res.current_directory@
                == current_directory@ && sorted_by(opts.sort_by, res.files@)
                && res.files@.to_multiset() == entries@.to_multiset().filter(keep_pred(opts))),
            self matches LsCommand::Stats(p) ==> (r matches Ok(res) && res.total_files
                == count_plain_files(entries@) && res.total_directories == count_dirs(entries@)
                && res.total_size == sum_sizes(entries@) && sorted_by(SortBy::Name, res.files@)),
            self matches LsCommand::Invalid(m) ==> (r matches Err(e) && e@ == "Error: "@ + m@),
            self is NotLsCommand ==> (r matches Err(e) && e@ == "No es un comando ls"@),
    {
        match self {
            LsCommand::List(path, options) => {
                Ok(use_case.list_directory_with_options(entries, current_directory, &options))
            },
            LsCommand::Stats(path) => {
                let mut res = use_case.build_listing(entries, current_directory);
                res.sort_by_name();
                Ok(res)
            },
            LsCommand::Invalid(message) => {
                let mut e = String::from_str("Error: ");
                e.append(message.as_str());
                Err(e)
            },
            LsCommand::NotLsCommand => Err(String::from_str("No es un comando ls")),
        }
    }
}

} // verus!
