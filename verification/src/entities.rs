//! The session's data model: commands, the terminal state that the line
//! editor mutates, and the records that the directory listing engine builds.
use vstd::prelude::*;
use crate::text::{is_space, spec_lower, lower_str, is_space_exec};
use crate::order::{lex_le, lex_le_exec, lemma_lex_le_total, lemma_lex_le_trans};

verus! {

/// How many history lines the terminal state keeps.
pub const HISTORY_RING_CAP: usize = 100;

/// How many output lines the terminal keeps before evicting the oldest.
pub const OUTPUT_CAP: usize = 1000;

/// A parsed command together with the result of running it.
#[derive(Debug, Clone)]
pub struct Command {
    pub name: String,
    pub args: Vec<String>,
    pub output: String,
    pub exit_code: i32,
}

impl Command {
    /// A freshly parsed command: no output yet, exit code zero.
    pub fn new(name: String, args: Vec<String>) -> (r: Command)
        ensures
            r.name@ == name@,
            r.args == args,
            r.output@ == Seq::<char>::empty(),
            r.exit_code == 0,
    {
        Command { name, args, output: String::new(), exit_code: 0 }
    }

    /// The same command with its captured output replaced.
    pub fn with_output(self, output: String) -> (r: Command)
        ensures
            r.name@ == self.name@,
            r.args == self.args,
            r.output@ == output@,
            r.exit_code == self.exit_code,
    {
        Command { output, ..self }
    }

    /// The same command with its exit code replaced.
    pub fn with_exit_code(self, exit_code: i32) -> (r: Command)
        ensures
            r.name@ == self.name@,
            r.args == self.args,
            r.output@ == self.output@,
            r.exit_code == exit_code,
    {
        Command { exit_code, ..self }
    }
}

#[derive(Debug, Clone, Copy, PartialEq, Eq, Structural)]
pub enum TerminalMode {
    Matrix,
    Command,
}

/// Every character of `s` is whitespace, so the line is blank.
pub open spec fn all_spaces(s: Seq<char>) -> bool {
    forall|k: int| 0 <= k < s.len() ==> is_space(#[trigger] s[k])
}

/// Whether a line is blank once trimmed.
pub fn is_blank(s: &str) -> (r: bool)
    ensures
        r == all_spaces(s@),
{
    let n = s.unicode_len();
    let mut i: usize = 0;
    while i < n
        invariant
            n == s@.len(),
            i <= n,
            forall|k: int| 0 <= k < i ==> is_space(#[trigger] s@[k]),
        decreases n - i,
    {
        if !is_space_exec(s.get_char(i)) {
            return false;
        }
        i = i + 1;
    }
    true
}

/// The state that the line editor and the command pipeline share: the input
/// buffer with its cursor, the ring of submitted lines, and the output log.
#[derive(Debug, Clone)]
pub struct TerminalState {
    pub command_buffer: String,
    pub cursor_position: usize,
    pub command_history: Vec<String>,
    pub history_index: usize,
    pub output_lines: Vec<String>,
    pub mode: TerminalMode,
    pub should_exit: bool,
}

impl TerminalState {
    /// The cursor never leaves the buffer, and both rings stay bounded.
    pub open spec fn wf(self) -> bool {
        &&& self.cursor_position <= self.command_buffer@.len()
        &&& self.command_history@.len() <= HISTORY_RING_CAP
        &&& self.output_lines@.len() <= OUTPUT_CAP
    }
}

impl Default for TerminalState {
    /// An empty session in the animated mode.
    fn default() -> (r: TerminalState)
        ensures
            r.command_buffer@ == Seq::<char>::empty(),
            r.cursor_position == 0,
            r.command_history@ == Seq::<String>::empty(),
            r.history_index == 0,
            r.output_lines@ == Seq::<String>::empty(),
            r.mode == TerminalMode::Matrix,
            r.should_exit == false,
            r.wf(),
    {
        TerminalState {
            command_buffer: String::new(),
            cursor_position: 0,
            command_history: Vec::new(),
            history_index: 0,
            output_lines: Vec::new(),
            mode: TerminalMode::Matrix,
            should_exit: false,
        }
    }
}

impl TerminalState {
    /// Records a submitted line in the ring, evicting the oldest entry once
    /// the ring is full; blank lines are not recorded. The index always ends
    /// just past the newest entry.
    pub fn add_to_history(&mut self, command: String)
        requires
            old(self).wf(),
        ensures
            final(self).wf(),
            all_spaces(command@) ==> final(self).command_history == old(self).command_history,
            !all_spaces(command@) ==> final(self).command_history@ == (if old(
                self,
            ).command_history@.len() < HISTORY_RING_CAP {
                old(self).command_history@.push(command)
            } else {
                old(self).command_history@.drop_first().push(command)
            }),
            final(self).history_index == final(self).command_history@.len(),
            final(self).command_buffer == old(self).command_buffer,
            final(self).cursor_position == old(self).cursor_position,
            final(self).output_lines == old(self).output_lines,
            final(self).mode == old(self).mode,
            final(self).should_exit == old(self).should_exit,
    {
        if !is_blank(command.as_str()) {
            self.command_history.push(command);
            if self.command_history.len() > HISTORY_RING_CAP {
                self.command_history.remove(0);
                proof {
                    assert(self.command_history@ =~= old(
                        self,
                    ).command_history@.drop_first().push(command));
                }
            }
        }
        self.history_index = self.command_history.len();
    }

    /// Empties the buffer and parks the cursor at the start.
    pub fn clear_buffer(&mut self)
        ensures
            final(self).command_buffer@ == Seq::<char>::empty(),
            final(self).cursor_position == 0,
            final(self).wf() == (old(self).command_history@.len() <= HISTORY_RING_CAP && old(
                self,
            ).output_lines@.len() <= OUTPUT_CAP),
            final(self).command_history == old(self).command_history,
            final(self).history_index == old(self).history_index,
            final(self).output_lines == old(self).output_lines,
            final(self).mode == old(self).mode,
            final(self).should_exit == old(self).should_exit,
    {
        self.command_buffer = String::new();
        self.cursor_position = 0;
    }

    /// Inserts a character at the cursor and advances the cursor past it.
    pub fn insert_char(&mut self, ch: char)
        requires
            old(self).wf(),
            old(self).command_buffer@.len() < usize::MAX,
        ensures
            final(self).wf(),
            final(self).command_buffer@ == old(self).command_buffer@.take(
                old(self).cursor_position as int,
            ).push(ch) + old(self).command_buffer@.skip(old(self).cursor_position as int),
            final(self).cursor_position == old(self).cursor_position + 1,
            final(self).command_history == old(self).command_history,
            final(self).history_index == old(self).history_index,
            final(self).output_lines == old(self).output_lines,
            final(self).mode == old(self).mode,
            final(self).should_exit == old(self).should_exit,
    {
        let pos = self.cursor_position;
        let len = self.command_buffer.unicode_len();
        let mut head: String = self.command_buffer.as_str().substring_char(0, pos).to_owned();
        crate::text::push_char(&mut head, ch);
        let tail = self.command_buffer.as_str().substring_char(pos, len);
        let joined = head.concat(tail);
        proof {
            assert(old(self).command_buffer@.subrange(0, pos as int) =~= old(
                self,
            ).command_buffer@.take(pos as int));
            assert(old(self).command_buffer@.subrange(pos as int, len as int) =~= old(
                self,
            ).command_buffer@.skip(pos as int));
        }
        self.command_buffer = joined;
        self.cursor_position = pos + 1;
    }

    /// Removes the character just before the cursor; at the start of the
    /// buffer nothing changes.
    pub fn delete_char(&mut self)
        requires
            old(self).wf(),
        ensures
            final(self).wf(),
            old(self).cursor_position == 0 ==> final(self).command_buffer == old(
                self,
            ).command_buffer && final(self).cursor_position == 0,
            old(self).cursor_position > 0 ==> final(self).command_buffer@ == old(
                self,
            ).command_buffer@.take(old(self).cursor_position - 1) + old(self).command_buffer@.skip(
                old(self).cursor_position as int,
            ) && final(self).cursor_position == old(self).cursor_position - 1,
            final(self).command_history == old(self).command_history,
            final(self).history_index == old(self).history_index,
            final(self).output_lines == old(self).output_lines,
            final(self).mode == old(self).mode,
            final(self).should_exit == old(self).should_exit,
    {
        if self.cursor_position > 0 {
            let pos = self.cursor_position;
            let len = self.command_buffer.unicode_len();
            let head: String = self.command_buffer.as_str().substring_char(0, pos - 1).to_owned();
            let tail = self.command_buffer.as_str().substring_char(pos, len);
            let joined = head.concat(tail);
            proof {
                assert(old(self).command_buffer@.subrange(0, pos - 1) =~= old(
                    self,
                ).command_buffer@.take(pos - 1));
                assert(old(self).command_buffer@.subrange(pos as int, len as int) =~= old(
                    self,
                ).command_buffer@.skip(pos as int));
            }
            self.command_buffer = joined;
            self.cursor_position = pos - 1;
        }
    }
}

/// One line-editor operation, as the editing contracts describe them: the
/// ensures of `insert_char`, `delete_char` and the cursor moves state
/// exactly the equations of `apply_edit`.
pub enum EditOp {
    Insert(char),
    DeleteBeforeCursor,
    MoveLeft,
    MoveRight,
    MoveToStart,
    MoveToEnd,
}

/// What one operation does to the buffer and the cursor.
pub open spec fn apply_edit(buf: Seq<char>, cur: int, op: EditOp) -> (Seq<char>, int) {
    match op {
        EditOp::Insert(c) => (buf.take(cur).push(c) + buf.skip(cur), cur + 1),
        EditOp::DeleteBeforeCursor => if cur > 0 {
            (buf.take(cur - 1) + buf.skip(cur), cur - 1)
        } else {
            (buf, cur)
        },
        EditOp::MoveLeft => (buf, if cur > 0 {
            cur - 1
        } else {
            0
        }),
        EditOp::MoveRight => (buf, if cur < buf.len() {
            cur + 1
        } else {
            cur
        }),
        EditOp::MoveToStart => (buf, 0),
        EditOp::MoveToEnd => (buf, buf.len() as int),
    }
}

/// A whole run of operations, applied in order.
pub open spec fn apply_edits(buf: Seq<char>, cur: int, ops: Seq<EditOp>) -> (Seq<char>, int)
    decreases ops.len(),
{
    if ops.len() == 0 {
        (buf, cur)
    } else {
        let stepped = apply_edit(buf, cur, ops[0]);
        apply_edits(stepped.0, stepped.1, ops.drop_first())
    }
}

/// Law: whatever sequence of inserts, deletes and cursor moves is applied
/// to a state whose cursor is within the buffer, the cursor stays within
/// the buffer.
pub proof fn lemma_cursor_stays_in_bounds(buf: Seq<char>, cur: int, ops: Seq<EditOp>)
    requires
        0 <= cur <= buf.len(),
    ensures
        0 <= apply_edits(buf, cur, ops).1 <= apply_edits(buf, cur, ops).0.len(),
    decreases ops.len(),
{
    if ops.len() > 0 {
        let stepped = apply_edit(buf, cur, ops[0]);
        match ops[0] {
            EditOp::Insert(c) => {
                assert(stepped.0.len() == buf.len() + 1);
            },
            EditOp::DeleteBeforeCursor => {
                if cur > 0 {
                    assert(stepped.0.len() == buf.len() - 1);
                }
            },
            _ => {},
        }
        lemma_cursor_stays_in_bounds(stepped.0, stepped.1, ops.drop_first());
    }
}

/// One directory entry as the listing engine sees it. The modification stamp
/// is seconds since the epoch; until `with_modified` is called it is zero.
#[derive(Debug, Clone)]
pub struct FileInfo {
    pub name: String,
    pub path: String,
    pub is_directory: bool,
    pub size: u64,
    pub modified: u64,
    pub permissions: String,
    pub owner: String,
    pub group: String,
}

impl FileInfo {
    /// A plain file record with everything but the names left at defaults.
    pub fn new(name: String, path: String) -> (r: FileInfo)
        ensures
            r.name@ == name@,
            r.path@ == path@,
            r.is_directory == false,
            r.size == 0,
            r.modified == 0,
            r.permissions@ == Seq::<char>::empty(),
            r.owner@ == Seq::<char>::empty(),
            r.group@ == Seq::<char>::empty(),
    {
        FileInfo {
            name,
            path,
            is_directory: false,
            size: 0,
            modified: 0,
            permissions: String::new(),
            owner: String::new(),
            group: String::new(),
        }
    }

    pub fn with_directory(self, is_directory: bool) -> (r: FileInfo)
        ensures
            r == (FileInfo { is_directory, ..self }),
    {
        FileInfo { is_directory, ..self }
    }

    pub fn with_size(self, size: u64) -> (r: FileInfo)
        ensures
            r == (FileInfo { size, ..self }),
    {
        FileInfo { size, ..self }
    }

    pub fn with_modified(self, modified: u64) -> (r: FileInfo)
        ensures
            r == (FileInfo { modified, ..self }),
    {
        FileInfo { modified, ..self }
    }

    pub fn with_permissions(self, permissions: String) -> (r: FileInfo)
        ensures
            r == (FileInfo { permissions, ..self }),
    {
        FileInfo { permissions, ..self }
    }

    pub fn with_owner(self, owner: String) -> (r: FileInfo)
        ensures
            r == (FileInfo { owner, ..self }),
    {
        FileInfo { owner, ..self }
    }

    pub fn with_group(self, group: String) -> (r: FileInfo)
        ensures
            r == (FileInfo { group, ..self }),
    {
        FileInfo { group, ..self }
    }
}

/// The order a listing is presented in.
#[derive(Debug, Clone, Copy, PartialEq, Eq, Structural)]
pub enum SortBy {
    Name,
    Size,
    Modified,
}

/// The sort key: case-insensitive name ascending, or size descending, or
/// modification time descending.
pub open spec fn file_le(by: SortBy, a: FileInfo, b: FileInfo) -> bool {
    match by {
        SortBy::Name => lex_le(spec_lower(a.name@), spec_lower(b.name@)),
        SortBy::Size => b.size <= a.size,
        SortBy::Modified => b.modified <= a.modified,
    }
}

pub open spec fn sorted_by(by: SortBy, s: Seq<FileInfo>) -> bool {
    forall|i: int, j: int| 0 <= i < j < s.len() ==> file_le(by, s[i], s[j])
}

pub proof fn lemma_file_le_total(by: SortBy, a: FileInfo, b: FileInfo)
    ensures
        file_le(by, a, b) || file_le(by, b, a),
{
    if by is Name {
        lemma_lex_le_total(spec_lower(a.name@), spec_lower(b.name@));
    }
}

pub proof fn lemma_file_le_trans(by: SortBy, a: FileInfo, b: FileInfo, c: FileInfo)
    requires
        file_le(by, a, b),
        file_le(by, b, c),
    ensures
        file_le(by, a, c),
{
    if by is Name {
        lemma_lex_le_trans(spec_lower(a.name@), spec_lower(b.name@), spec_lower(c.name@));
    }
}

/// Compares two entries under the chosen key.
pub fn file_le_exec(by: SortBy, a: &FileInfo, b: &FileInfo) -> (r: bool)
    ensures
        r == file_le(by, *a, *b),
{
    match by {
        SortBy::Name => {
            let la = lower_str(a.name.as_str());
            let lb = lower_str(b.name.as_str());
            lex_le_exec(la.as_str(), lb.as_str())
        },
        SortBy::Size => b.size <= a.size,
        SortBy::Modified => b.modified <= a.modified,
    }
}

/// Inserting an element at its place in a sorted run keeps the run sorted.
proof fn lemma_sorted_insert(by: SortBy, s: Seq<FileInfo>, p: int, x: FileInfo)
    requires
        sorted_by(by, s),
        0 <= p <= s.len(),
        forall|k: int| 0 <= k < p ==> file_le(by, #[trigger] s[k], x),
        forall|k: int| p <= k < s.len() ==> file_le(by, x, #[trigger] s[k]),
    ensures
        sorted_by(by, s.insert(p, x)),
{
    let t = s.insert(p, x);
    assert forall|i: int, j: int| 0 <= i < j < t.len() implies file_le(by, t[i], t[j]) by {
        if i < p && j < p {
            assert(t[i] == s[i] && t[j] == s[j]);
        } else if i < p && j == p {
            assert(t[i] == s[i] && t[j] == x);
        } else if i < p && j > p {
            assert(t[i] == s[i] && t[j] == s[j - 1]);
        } else if i == p {
            assert(t[i] == x && t[j] == s[j - 1]);
        } else {
            assert(t[i] == s[i - 1] && t[j] == s[j - 1]);
        }
    }
}

/// Sorts the entries in place under the chosen key. The result is ordered
/// and holds exactly the entries that went in.
pub fn sort_files_by(files: &mut Vec<FileInfo>, by: SortBy)
    ensures
        sorted_by(by, final(files)@),
        final(files)@.to_multiset() == old(files)@.to_multiset(),
        final(files)@.len() == old(files)@.len(),
{
    broadcast use vstd::seq_lib::group_to_multiset_ensures;
    broadcast use vstd::seq_lib::to_multiset_insert;
    broadcast use vstd::multiset::group_multiset_axioms;

    let n = files.len();
    let mut i: usize = 1;
    if n <= 1 {
        return ;
    }
    while i < n
        invariant
            1 <= i <= n,
            n == files@.len(),
            sorted_by(by, files@.take(i as int)),
            files@.to_multiset() == old(files)@.to_multiset(),
        decreases n - i,
    {
        let ghost before = files@;
        let x = files.remove(i);
        let mut p: usize = 0;
        while p < i && file_le_exec(by, &files[p], &x)
            invariant
                p <= i,
                1 <= i < n,
                n == before.len(),
                files@ == before.remove(i as int),
                forall|k: int| 0 <= k < p ==> file_le(by, #[trigger] files@[k], x),
            decreases i - p,
        {
            p = p + 1;
        }
        proof {
            // Entries at and beyond the stop point all come after `x`.
            assert forall|k: int| p <= k < i implies file_le(by, x, #[trigger] files@[k]) by {
                assert(files@[p as int] == before[p as int]);
                assert(before.take(i as int)[p as int] == before[p as int]);
                lemma_file_le_total(by, files@[p as int], x);
                if k > p {
                    assert(files@[k] == before[k]);
                    assert(before.take(i as int)[k] == before[k]);
                    assert(file_le(by, before[p as int], before[k]));
                    lemma_file_le_trans(by, x, files@[p as int], files@[k]);
                }
            }
            assert forall|k: int| 0 <= k < p implies file_le(by, #[trigger] files@.take(
                i as int,
            )[k], x) by {
                assert(files@.take(i as int)[k] == files@[k]);
            }
            assert forall|k1: int, k2: int|
                0 <= k1 < k2 < i implies file_le(
                by,
                #[trigger] files@.take(i as int)[k1],
                #[trigger] files@.take(i as int)[k2],
            ) by {
                assert(files@.take(i as int)[k1] == before[k1]);
                assert(files@.take(i as int)[k2] == before[k2]);
                assert(before.take(i as int)[k1] == before[k1]);
                assert(before.take(i as int)[k2] == before[k2]);
            }
            lemma_sorted_insert(by, files@.take(i as int), p as int, x);
        }
        let ghost removed = files@;
        files.insert(p, x);
        proof {
            // The prefix of length i + 1 is the old sorted prefix with `x`
            // inserted; the tail beyond it is untouched.
            assert(files@.take(i + 1 as int) =~= removed.take(i as int).insert(p as int, x));
            vstd::seq_lib::to_multiset_remove(before, i as int);
            vstd::seq_lib::to_multiset_insert(removed, p as int, x);
            assert(files@ == removed.insert(p as int, x));
            assert(files@.to_multiset() == before.to_multiset().remove(x).insert(x));
            assert(before.contains(before[i as int]));
            vstd::seq_lib::to_multiset_contains(before, x);
            assert(before.to_multiset().count(x) > 0);
            assert(before.to_multiset().remove(x).insert(x) =~= before.to_multiset());
        }
        i = i + 1;
    }
    proof {
        assert(files@.take(n as int) =~= files@);
    }
}

/// What a directory scan produced: the entries plus running totals. The
/// totals aggregate everything ever added, so later filtering of the entry
/// list leaves them untouched, as the listing engine intends.
#[derive(Debug, Clone)]
pub struct LsResult {
    pub files: Vec<FileInfo>,
    pub total_files: usize,
    pub total_directories: usize,
    pub total_size: u64,
    pub current_directory: String,
}

impl LsResult {
    /// An empty listing for the given directory.
    pub fn new(current_directory: String) -> (r: LsResult)
        ensures
            r.files@ == Seq::<FileInfo>::empty(),
            r.total_files == 0,
            r.total_directories == 0,
            r.total_size == 0,
            r.current_directory@ == current_directory@,
    {
        LsResult {
            files: Vec::new(),
            total_files: 0,
            total_directories: 0,
            total_size: 0,
            current_directory,
        }
    }

    /// Appends one entry: a directory counts toward the directory total, a
    /// file counts toward the file total and contributes its size.
    pub fn add_file(&mut self, file: FileInfo)
        requires
            !file.is_directory ==> old(self).total_size + file.size <= u64::MAX,
            old(self).total_files < usize::MAX,
            old(self).total_directories < usize::MAX,
        ensures
            final(self).files@ == old(self).files@.push(file),
            file.is_directory ==> final(self).total_directories == old(self).total_directories + 1,
            file.is_directory ==> final(self).total_files == old(self).total_files,
            file.is_directory ==> final(self).total_size == old(self).total_size,
            !file.is_directory ==> final(self).total_files == old(self).total_files + 1,
            !file.is_directory ==> final(self).total_directories == old(self).total_directories,
            !file.is_directory ==> final(self).total_size == old(self).total_size + file.size,
            final(self).current_directory == old(self).current_directory,
    {
        if file.is_directory {
            self.total_directories = self.total_directories + 1;
        } else {
            self.total_files = self.total_files + 1;
            self.total_size = self.total_size + file.size;
        }
        self.files.push(file);
    }

    /// Orders the entries by name, case-insensitively.
    pub fn sort_by_name(&mut self)
        ensures
            sorted_by(SortBy::Name, final(self).files@),
            final(self).files@.to_multiset() == old(self).files@.to_multiset(),
            final(self).files@.len() == old(self).files@.len(),
            final(self).total_files == old(self).total_files,
            final(self).total_directories == old(self).total_directories,
            final(self).total_size == old(self).total_size,
            final(self).current_directory == old(self).current_directory,
    {
        sort_files_by(&mut self.files, SortBy::Name);
    }

    /// Orders the entries by size, largest first.
    pub fn sort_by_size(&mut self)
        ensures
            sorted_by(SortBy::Size, final(self).files@),
            final(self).files@.to_multiset() == old(self).files@.to_multiset(),
            final(self).files@.len() == old(self).files@.len(),
            final(self).total_files == old(self).total_files,
            final(self).total_directories == old(self).total_directories,
            final(self).total_size == old(self).total_size,
            final(self).current_directory == old(self).current_directory,
    {
        sort_files_by(&mut self.files, SortBy::Size);
    }

    /// Orders the entries by modification time, most recent first.
    pub fn sort_by_modified(&mut self)
        ensures
            sorted_by(SortBy::Modified, final(self).files@),
            final(self).files@.to_multiset() == old(self).files@.to_multiset(),
            final(self).files@.len() == old(self).files@.len(),
            final(self).total_files == old(self).total_files,
            final(self).total_directories == old(self).total_directories,
            final(self).total_size == old(self).total_size,
            final(self).current_directory == old(self).current_directory,
    {
        sort_files_by(&mut self.files, SortBy::Modified);
    }
}

} // verus!
