use vstd::prelude::*;
use crate::text::{decimal, decimal_string, duration_debug, duration_debug_text};

verus! {

/// The backup kind that copies the whole source folder.
pub const FULL_FOLDER: &'static str = "FullFolder";

/// The backup kind that copies the source folder's files of one extension.
pub const FILE_TYPE: &'static str = "FileType";

/// What a backup request asks for.
#[derive(Debug)]
pub enum BackupPlan {
    /// Copy the source folder recursively.
    FullFolder,
    /// Copy the files directly in the source folder that have this extension.
    FileType(String),
}

/// Why a backup request is refused.
#[derive(Clone, Copy, Debug, PartialEq, Eq, Structural)]
pub enum BackupError {
    /// The source path does not exist.
    SourceMissing,
    /// The source is not a directory, or the destination is missing or not a
    /// directory.
    InvalidPaths,
    /// A `FileType` backup without an extension.
    MissingExtension,
    /// An unknown backup kind.
    InvalidBackupType,
}

impl BackupError {
    /// Whether the refusal is signalled with the error sound (the path
    /// errors are; the request errors are not).
    pub fn plays_error_sound(&self) -> (b: bool)
        ensures
            b == (*self == BackupError::SourceMissing || *self == BackupError::InvalidPaths),
    {
        match self {
            BackupError::SourceMissing => true,
            BackupError::InvalidPaths => true,
            _ => false,
        }
    }

    /// The message that reports the refusal.
    pub fn message(&self) -> (s: String)
        ensures
            *self == BackupError::SourceMissing ==> s@ == "Percorso sorgente non esiste"@,
            *self == BackupError::InvalidPaths ==> s@ == "Percorso sorgente o destinazione non valido"@,
            *self == BackupError::MissingExtension ==> s@ == "Estensione file non specificata per FileType"@,
            *self == BackupError::InvalidBackupType ==> s@ == "Tipo di backup non valido"@,
    {
        match self {
            BackupError::SourceMissing => String::from_str("Percorso sorgente non esiste"),
            BackupError::InvalidPaths => String::from_str("Percorso sorgente o destinazione non valido"),
            BackupError::MissingExtension => String::from_str("Estensione file non specificata per FileType"),
            BackupError::InvalidBackupType => String::from_str("Tipo di backup non valido"),
        }
    }
}

/// Checks the two folders of a backup: the source must exist and be a
/// directory, the destination must exist and be a directory.
pub fn check_backup_paths(src_exists: bool, src_is_dir: bool, dest_exists: bool, dest_is_dir: bool) -> (r: Result<(), BackupError>)
    ensures
        !src_exists ==> r == Err::<(), BackupError>(BackupError::SourceMissing),
        src_exists && (!src_is_dir || !dest_exists || !dest_is_dir) ==> r == Err::<(), BackupError>(BackupError::InvalidPaths),
        src_exists && src_is_dir && dest_exists && dest_is_dir ==> r == Ok::<(), BackupError>(()),
{
    if !src_exists {
        return Err(BackupError::SourceMissing);
    }
    if !src_is_dir || !dest_exists || !dest_is_dir {
        return Err(BackupError::InvalidPaths);
    }
    Ok(())
}

/// Reads a backup request: `FullFolder`, or `FileType` with its extension.
pub fn backup_plan(backup_type: &str, extension: Option<&str>) -> (r: Result<BackupPlan, BackupError>)
    ensures
        backup_type@ == FULL_FOLDER@ ==> r matches Ok(BackupPlan::FullFolder),
        backup_type@ != FULL_FOLDER@ && backup_type@ == FILE_TYPE@ ==> match extension {
            Some(e) => r matches Ok(BackupPlan::FileType(x)) && x@ == e@,
            None => r matches Err(BackupError::MissingExtension),
        },
        backup_type@ != FULL_FOLDER@ && backup_type@ != FILE_TYPE@ ==> r matches Err(BackupError::InvalidBackupType),
{
    let kind = String::from_str(backup_type);
    if kind == String::from_str(FULL_FOLDER) {
        Ok(BackupPlan::FullFolder)
    } else if kind == String::from_str(FILE_TYPE) {
        match extension {
            Some(e) => Ok(BackupPlan::FileType(String::from_str(e))),
            None => Err(BackupError::MissingExtension),
        }
    } else {
        Err(BackupError::InvalidBackupType)
    }
}

/// The index of the last `.` in `s`, or -1 when there is none.
pub open spec fn last_dot(s: Seq<char>) -> int
    decreases s.len(),
{
    if s.len() == 0 {
        -1
    } else if s.last() == '.' {
        s.len() - 1
    } else {
        last_dot(s.drop_last())
    }
}

/// The extension of a file called `name`, as `Path::extension` gives it:
/// the part after the last `.`, unless the name is `..`, has no `.`, or has
/// its only `.` in front.
pub open spec fn path_extension(name: Seq<char>) -> Option<Seq<char>> {
    if name == seq!['.', '.'] {
        None
    } else if last_dot(name) <= 0 {
        None
    } else {
        Some(name.subrange(last_dot(name) + 1, name.len() as int))
    }
}

/// The file called `name` has the extension `ext`.
pub open spec fn extension_is(name: Seq<char>, ext: Seq<char>) -> bool {
    path_extension(name) == Some(ext)
}

proof fn lemma_last_dot(s: Seq<char>, k: int)
    requires
        -1 <= k < s.len(),
        k >= 0 ==> s[k] == '.',
        forall|j: int| k < j < s.len() ==> s[j] != '.',
    ensures
        last_dot(s) == k,
    decreases s.len(),
{
    if s.len() > 0 && s.last() != '.' {
        assert forall|j: int| k < j < s.drop_last().len() implies s.drop_last()[j] != '.' by {
            assert(s.drop_last()[j] == s[j]);
        }
        lemma_last_dot(s.drop_last(), k);
    }
}

/// Whether the file called `name` has the extension `ext`.
pub fn has_extension(name: &str, ext: &str) -> (b: bool)
    ensures
        b == extension_is(name@, ext@),
{
    let n: usize = name.unicode_len();
    if n == 2 && name.get_char(0) == '.' && name.get_char(1) == '.' {
        assert(name@ == seq!['.', '.']);
        return false;
    }
    assert(name@ != seq!['.', '.']) by {
        if name@ == seq!['.', '.'] {
            assert(name@[0] == '.' && name@[1] == '.');
        }
    }
    let mut i: usize = n;
    while i > 0 && name.get_char(i - 1) != '.'
        invariant
            i <= n,
            n == name@.len(),
            forall|j: int| i <= j < n ==> name@[j] != '.',
        decreases i,
    {
        i = i - 1;
    }
    proof {
        lemma_last_dot(name@, i - 1);
    }
    if i <= 1 {
        return false;
    }
    assert(path_extension(name@) == Some(name@.subrange(i as int, n as int)));
    let m: usize = ext.unicode_len();
    if n - i != m {
        assert(name@.subrange(i as int, n as int).len() != ext@.len());
        return false;
    }
    let mut j: usize = 0;
    while j < m
        invariant
            j <= m,
            m == ext@.len(),
            n == name@.len(),
            i + m == n,
            path_extension(name@) == Some(name@.subrange(i as int, n as int)),
            forall|t: int| 0 <= t < j ==> name@[i + t] == ext@[t],
        decreases m - j,
    {
        if name.get_char(i + j) != ext.get_char(j) {
            assert(name@.subrange(i as int, n as int)[j as int] != ext@[j as int]);
            return false;
        }
        j = j + 1;
    }
    assert(name@.subrange(i as int, n as int) =~= ext@);
    true
}

/// The positions, in order, of the names among the first `n` of `names`
/// that have the extension `ext`.
pub open spec fn matching_indices(names: Seq<String>, ext: Seq<char>, n: int) -> Seq<usize>
    decreases n,
{
    if n <= 0 {
        seq![]
    } else if extension_is(names[n - 1]@, ext) {
        matching_indices(names, ext, n - 1).push((n - 1) as usize)
    } else {
        matching_indices(names, ext, n - 1)
    }
}

/// The selection of a `FileType` backup among `n` entries holds each entry
/// with the extension exactly once, in increasing order, and nothing else.
pub proof fn lemma_matching_indices(names: Seq<String>, ext: Seq<char>, n: int)
    requires
        0 <= n <= names.len() <= usize::MAX,
    ensures
        forall|i: int| 0 <= i < matching_indices(names, ext, n).len() ==> {
            let k: usize = #[trigger] matching_indices(names, ext, n)[i];
            k < n && extension_is(names[k as int]@, ext)
        },
        forall|i: int, j: int|
            0 <= i < j < matching_indices(names, ext, n).len() ==> #[trigger] matching_indices(names, ext, n)[i]
                < #[trigger] matching_indices(names, ext, n)[j],
        forall|k: int| 0 <= k < n && extension_is(names[k]@, ext) ==> #[trigger] matching_indices(names, ext, n).contains(k as usize),
    decreases n,
{
    if n > 0 {
        lemma_matching_indices(names, ext, n - 1);
        let prev = matching_indices(names, ext, n - 1);
        let r = matching_indices(names, ext, n);
        if extension_is(names[n - 1]@, ext) {
            assert(r == prev.push((n - 1) as usize));
            assert forall|i: int| 0 <= i < r.len() implies (#[trigger] r[i]) < n && extension_is(names[r[i] as int]@, ext) by {
                if i < prev.len() {
                    assert(r[i] == prev[i]);
                } else {
                    assert(r[i] == (n - 1) as usize);
                }
            }
            assert forall|i: int, j: int| 0 <= i < j < r.len() implies #[trigger] r[i] < #[trigger] r[j] by {
                assert(r[i] == prev[i]);
                if j < prev.len() {
                    assert(r[j] == prev[j]);
                } else {
                    assert(r[j] == (n - 1) as usize);
                }
            }
            assert forall|k: int| 0 <= k < n && extension_is(names[k]@, ext) implies r.contains(k as usize) by {
                if k < n - 1 {
                    assert(prev.contains(k as usize));
                    let i: int = choose|i: int| 0 <= i < prev.len() && prev[i] == k as usize;
                    assert(r[i] == k as usize);
                } else {
                    assert(r[prev.len() as int] == k as usize);
                }
            }
        } else {
            assert forall|k: int| 0 <= k < n && extension_is(names[k]@, ext) implies r.contains(k as usize) by {
                assert(prev.contains(k as usize));
            }
        }
    }
}

/// The files of a `FileType` backup: the positions, in order, of the entry
/// names that have the extension `ext`.
pub fn select_files_by_extension(names: &Vec<String>, ext: &str) -> (r: Vec<usize>)
    ensures
        r@ == matching_indices(names@, ext@, names@.len() as int),
{
    let mut r: Vec<usize> = Vec::new();
    let mut i: usize = 0;
    while i < names.len()
        invariant
            i <= names@.len(),
            r@ == matching_indices(names@, ext@, i as int),
        decreases names@.len() - i,
    {
        if has_extension(names[i].as_str(), ext) {
            r.push(i);
        }
        i = i + 1;
    }
    r
}

/// The sum of `sizes`.
pub open spec fn seq_sum(sizes: Seq<u64>) -> nat
    decreases sizes.len(),
{
    if sizes.len() == 0 {
        0
    } else {
        seq_sum(sizes.drop_last()) + sizes.last() as nat
    }
}

proof fn lemma_prefix_sum_le(sizes: Seq<u64>, i: int)
    requires
        0 <= i <= sizes.len(),
    ensures
        seq_sum(sizes.take(i)) <= seq_sum(sizes),
    decreases sizes.len() - i,
{
    if i < sizes.len() {
        lemma_prefix_sum_le(sizes, i + 1);
        assert(sizes.take(i + 1).drop_last() =~= sizes.take(i));
    } else {
        assert(sizes.take(i) =~= sizes);
    }
}

/// The total size of a backup: the sum of the sizes of its entries.
pub fn total_size(sizes: &Vec<u64>) -> (total: u64)
    requires
        seq_sum(sizes@) <= u64::MAX,
    ensures
        total == seq_sum(sizes@),
{
    let mut total: u64 = 0;
    let mut i: usize = 0;
    while i < sizes.len()
        invariant
            i <= sizes@.len(),
            total == seq_sum(sizes@.take(i as int)),
            seq_sum(sizes@) <= u64::MAX,
        decreases sizes@.len() - i,
    {
        proof {
            lemma_prefix_sum_le(sizes@, i + 1);
            assert(sizes@.take(i + 1).drop_last() =~= sizes@.take(i as int));
        }
        total = total + sizes[i];
        i = i + 1;
    }
    assert(sizes@.take(sizes@.len() as int) =~= sizes@);
    total
}

/// What to do with one entry of a folder being copied.
#[derive(Clone, Copy, Debug, PartialEq, Eq, Structural)]
pub enum CopyAction {
    /// The entry is a directory: copy it recursively.
    CopyDirectory,
    /// The entry is a file that already exists at the destination: leave it.
    SkipExisting,
    /// The entry is a file missing at the destination: copy it.
    CopyFile,
}

/// Decides how an entry is copied: directories recursively, files only when
/// the destination does not have them yet.
pub fn copy_action(src_is_dir: bool, dest_exists: bool) -> (a: CopyAction)
    ensures
        src_is_dir ==> a == CopyAction::CopyDirectory,
        !src_is_dir && dest_exists ==> a == CopyAction::SkipExisting,
        !src_is_dir && !dest_exists ==> a == CopyAction::CopyFile,
{
    if src_is_dir {
        CopyAction::CopyDirectory
    } else if dest_exists {
        CopyAction::SkipExisting
    } else {
        CopyAction::CopyFile
    }
}

/// The backup log's first line and the label of the size line.
pub const LOG_HEAD: &'static str = "Backup completato:\nDimensione totale dei file: ";

/// The unit of the size line and the label of the duration line.
pub const LOG_MIDDLE: &'static str = " bytes\nTempo impiegato per il backup: ";

/// The entry appended to the backup log for a backup of `total_size` bytes
/// whose duration is written `duration_text`.
pub fn backup_log_text(total_size: u64, duration_text: &str) -> (s: String)
    ensures
        s@ == LOG_HEAD@ + decimal(total_size as nat) + LOG_MIDDLE@ + duration_text@ + "\n"@,
{
    let mut s = String::from_str(LOG_HEAD);
    let size = decimal_string(total_size);
    s.append(size.as_str());
    s.append(LOG_MIDDLE);
    s.append(duration_text);
    s.append("\n");
    s
}

/// The entry appended to the backup log for a backup of `total_size` bytes
/// that took `secs` seconds and `nanos` nanoseconds, the duration written as
/// `Duration`'s `Debug` writes it.
pub fn backup_log_entry(total_size: u64, secs: u64, nanos: u32) -> (s: String)
    requires
        nanos < 1_000_000_000,
    ensures
        s@ == LOG_HEAD@ + decimal(total_size as nat) + LOG_MIDDLE@ + duration_debug(secs, nanos) + "\n"@,
{
    let d = duration_debug_text(secs, nanos);
    backup_log_text(total_size, d.as_str())
}

} // verus!
