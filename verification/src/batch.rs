//! File operations run one item at a time (copy, move, trash, rename):
//! which step comes next, what each outcome records, and the texts that
//! label and summarise a batch.
use crate::clipboard::texts;
use crate::media::plural;
use crate::naming::or_text;
use crate::number::{decimal, push_decimal};
use crate::path::{file_name, join, parent, path_file_name, path_join, path_parent};
use crate::text::{append_chars, chars_eq, chars_of, contains_chars, has_infix, push_str, string_of};
use vstd::prelude::*;

verus! {

/// What a batch does next.
#[derive(Clone, Copy, Debug, PartialEq, Eq, Structural)]
pub enum BatchStep {
    /// Every item was handled: report the outcome.
    Finished,
    /// The user cancelled: stop and report it.
    Cancelled,
    /// Handle the item at this index.
    Process(usize),
}

/// The progress of a batch over `total` items: the next item's index, the
/// error lines and the paths that succeeded.
#[derive(Clone, Debug)]
pub struct FileBatch {
    pub total: usize,
    pub index: usize,
    pub errors: Vec<String>,
    pub successes: Vec<String>,
}

impl FileBatch {
    /// Each handled item left at most one record, and no more items were
    /// handled than there are.
    pub open spec fn wf(&self) -> bool {
        &&& self.index <= self.total
        &&& self.errors@.len() + self.successes@.len() <= self.index
    }

    /// A batch over `total` items, nothing handled yet.
    pub fn new(total: usize) -> (b: Self)
        ensures
            b.wf(),
            b.total == total,
            b.index == 0,
            b.errors@.len() == 0,
            b.successes@.len() == 0,
    {
        FileBatch { total, index: 0, errors: Vec::new(), successes: Vec::new() }
    }

    /// The next step: finished once every item was handled, otherwise
    /// cancelled when asked to, otherwise the next item.
    pub fn next_step(&self, cancelled: bool) -> (s: BatchStep)
        ensures
            s == (if self.index >= self.total {
                BatchStep::Finished
            } else if cancelled {
                BatchStep::Cancelled
            } else {
                BatchStep::Process(self.index)
            }),
    {
        if self.index >= self.total {
            BatchStep::Finished
        } else if cancelled {
            BatchStep::Cancelled
        } else {
            BatchStep::Process(self.index)
        }
    }

    /// Records the outcome of the current item and moves to the next: a
    /// success path, an error line, or neither (a cancelled item).
    pub fn record(&mut self, success: Option<String>, error: Option<String>)
        requires
            old(self).wf(),
            old(self).index < old(self).total,
            !(success is Some && error is Some),
        ensures
            final(self).wf(),
            final(self).total == old(self).total,
            final(self).index == old(self).index + 1,
            final(self).successes@ == (match success {
                Some(p) => old(self).successes@.push(p),
                None => old(self).successes@,
            }),
            final(self).errors@ == (match error {
                Some(e) => old(self).errors@.push(e),
                None => old(self).errors@,
            }),
    {
        match success {
            Some(p) => self.successes.push(p),
            None => {},
        }
        match error {
            Some(e) => self.errors.push(e),
            None => {},
        }
        self.index = self.index + 1;
    }
}

/// How one copy or move of a batch ended: done, or failed with the I/O
/// layer's message (`cancelled` when the failure was the cancellation).
#[derive(Clone, Debug)]
pub enum TransferOutcome {
    Done,
    Failed { message: String, cancelled: bool },
}

impl FileBatch {
    /// Records how the copy or move of `source` ended and moves to the next
    /// item: a move that succeeded records `source` as moved (a copy records
    /// nothing on success), a failure records "source: message" unless it
    /// was the cancellation.
    pub fn record_transfer(&mut self, source: &str, is_copy: bool, outcome: &TransferOutcome)
        requires
            old(self).wf(),
            old(self).index < old(self).total,
        ensures
            final(self).wf(),
            final(self).total == old(self).total,
            final(self).index == old(self).index + 1,
            texts(final(self).successes@) == (match *outcome {
                TransferOutcome::Done => if is_copy {
                    texts(old(self).successes@)
                } else {
                    texts(old(self).successes@).push(source@)
                },
                TransferOutcome::Failed { .. } => texts(old(self).successes@),
            }),
            texts(final(self).errors@) == (match *outcome {
                TransferOutcome::Done => texts(old(self).errors@),
                TransferOutcome::Failed { message, cancelled } => match failure_line_text(
                    source@,
                    message@,
                    cancelled,
                ) {
                    Some(line) => texts(old(self).errors@).push(line),
                    None => texts(old(self).errors@),
                },
            }),
    {
        let ghost s0 = self.successes@;
        let ghost e0 = self.errors@;
        match outcome {
            TransferOutcome::Done => {
                if is_copy {
                    self.record(None, None);
                } else {
                    self.record(Some(String::from_str(source)), None);
                    assert(texts(self.successes@) =~= texts(s0).push(source@));
                }
            },
            TransferOutcome::Failed { message, cancelled } => {
                let line = failure_line(source, message.as_str(), *cancelled);
                match line {
                    Some(l) => {
                        self.record(None, Some(l));
                        assert(texts(self.errors@) =~= texts(e0).push(
                            failure_line_text(source@, message@, *cancelled)->0,
                        ));
                    },
                    None => self.record(None, None),
                }
            },
        }
    }
}

/// The holding-tray paths to take out once a batch ends (finished or
/// cancelled): the moved sources, when the batch moved (not copied) items
/// and was asked to clear them from the tray; otherwise none.
pub open spec fn tray_paths_cleared(clear_tray_on_move: bool, is_copy: bool, moved: Seq<Seq<char>>) -> Seq<
    Seq<char>,
> {
    if clear_tray_on_move && !is_copy {
        moved
    } else {
        seq![]
    }
}

/// The holding-tray paths a finished or cancelled batch clears.
pub fn tray_paths_to_clear(clear_tray_on_move: bool, is_copy: bool, moved: &Vec<String>) -> (r: Vec<String>)
    ensures
        texts(r@) == tray_paths_cleared(clear_tray_on_move, is_copy, texts(moved@)),
{
    if clear_tray_on_move && !is_copy {
        crate::clipboard::clone_strings(moved)
    } else {
        let r: Vec<String> = Vec::new();
        assert(texts(r@) =~= seq![]);
        r
    }
}

/// The line recorded for an item that failed, unless it failed because the
/// batch was cancelled: "source: message".
pub open spec fn failure_line_text(source: Seq<char>, message: Seq<char>, cancelled: bool) -> Option<
    Seq<char>,
> {
    if cancelled {
        None
    } else {
        Some(source + ": "@ + message)
    }
}

/// The error line for a failed item; nothing for a cancelled one.
pub fn failure_line(source: &str, message: &str, cancelled: bool) -> (r: Option<String>)
    ensures
        crate::text::opt_text(r) == failure_line_text(source@, message@, cancelled),
{
    if cancelled {
        None
    } else {
        let mut out: Vec<char> = Vec::new();
        push_str(&mut out, source);
        push_str(&mut out, ": ");
        push_str(&mut out, message);
        Some(string_of(&out))
    }
}

/// The name of the folder items went to: the file name of the first
/// destination's parent, or "destination".
pub open spec fn dest_folder_name(first_dest: Seq<char>) -> Seq<char> {
    match parent(first_dest) {
        Some(p) => or_text(file_name(p), "destination"@),
        None => "destination"@,
    }
}

/// The verb of a finished copy or move: "Duplicated" for a duplication,
/// otherwise "Copied" or "Moved".
pub open spec fn transfer_verb(operation: Option<Seq<char>>, is_copy: bool) -> Seq<char> {
    if operation == Some("duplicate"@) {
        "Duplicated"@
    } else if is_copy {
        "Copied"@
    } else {
        "Moved"@
    }
}

/// The summary of a finished copy or move: "Copied 3 files to Pictures".
pub open spec fn transfer_summary_text(
    operation: Option<Seq<char>>,
    is_copy: bool,
    n: nat,
    first_dest: Seq<char>,
) -> Seq<char> {
    transfer_verb(operation, is_copy) + seq![' '] + decimal(n) + " file"@ + plural(n) + " to "@
        + dest_folder_name(first_dest)
}

/// The activity summary of a finished copy, move or duplication of `n`
/// items, the first of which went to `first_dest`.
pub fn transfer_summary(operation: Option<&str>, is_copy: bool, n: usize, first_dest: &str) -> (r:
    String)
    ensures
        r@ == transfer_summary_text(crate::format::opt_str(operation), is_copy, n as nat, first_dest@),
{
    let mut out: Vec<char> = Vec::new();
    let dup = match operation {
        Some(op) => crate::keys::eq_lit(&chars_of(op), "duplicate"),
        None => false,
    };
    if dup {
        push_str(&mut out, "Duplicated");
    } else if is_copy {
        push_str(&mut out, "Copied");
    } else {
        push_str(&mut out, "Moved");
    }
    out.push(' ');
    push_decimal(&mut out, n as u128);
    push_str(&mut out, " file");
    if n != 1 {
        out.push('s');
    }
    push_str(&mut out, " to ");
    let d = chars_of(first_dest);
    match path_parent(&d) {
        Some(p) => match path_file_name(&p) {
            Some(name) => append_chars(&mut out, &name),
            None => push_str(&mut out, "destination"),
        },
        None => push_str(&mut out, "destination"),
    }
    assert(out@ =~= transfer_summary_text(
        crate::format::opt_str(operation),
        is_copy,
        n as nat,
        first_dest@,
    ));
    string_of(&out)
}

/// The name of an item in a label, or a stand-in when it has none.
pub open spec fn item_name(path: Seq<char>, stand_in: Seq<char>) -> Seq<char> {
    or_text(file_name(path), stand_in)
}

fn push_item_name(out: &mut Vec<char>, path: &str, stand_in: &str)
    ensures
        final(out)@ == old(out)@ + item_name(path@, stand_in@),
{
    match path_file_name(&chars_of(path)) {
        Some(n) => append_chars(out, &n),
        None => push_str(out, stand_in),
    }
}

/// The label of a move to the trash: the item's name for one, the count
/// for several.
pub open spec fn trash_label_text(paths: Seq<Seq<char>>) -> Seq<char> {
    if paths.len() == 1 {
        "Trash: "@ + item_name(paths[0], "item"@)
    } else {
        "Trash: "@ + decimal(paths.len()) + " items"@
    }
}

/// The operations-panel label of a move to the trash.
pub fn trash_op_label(paths: &Vec<String>) -> (r: String)
    ensures
        r@ == trash_label_text(crate::clipboard::texts(paths@)),
{
    let mut out: Vec<char> = Vec::new();
    push_str(&mut out, "Trash: ");
    if paths.len() == 1 {
        push_item_name(&mut out, paths[0].as_str(), "item");
    } else {
        push_decimal(&mut out, paths.len() as u128);
        push_str(&mut out, " items");
    }
    string_of(&out)
}

/// The activity summary of a move to the trash.
pub open spec fn trash_summary_text(paths: Seq<Seq<char>>) -> Seq<char> {
    if paths.len() == 1 {
        "Trashed \""@ + item_name(paths[0], "item"@) + "\""@
    } else {
        "Trashed "@ + decimal(paths.len()) + " files"@
    }
}

/// The activity summary of a move to the trash.
pub fn trash_summary(paths: &Vec<String>) -> (r: String)
    ensures
        r@ == trash_summary_text(crate::clipboard::texts(paths@)),
{
    let mut out: Vec<char> = Vec::new();
    if paths.len() == 1 {
        push_str(&mut out, "Trashed \"");
        push_item_name(&mut out, paths[0].as_str(), "item");
        push_str(&mut out, "\"");
    } else {
        push_str(&mut out, "Trashed ");
        push_decimal(&mut out, paths.len() as u128);
        push_str(&mut out, " files");
    }
    string_of(&out)
}

/// Some error says the trash is not supported or the mount is gone.
pub open spec fn mount_error_in(errors: Seq<Seq<char>>) -> bool {
    exists|i: int|
        0 <= i < errors.len() && (has_infix(#[trigger] errors[i], "not support"@) || has_infix(
            errors[i],
            "Not Supported"@,
        ) || has_infix(errors[i], "not mounted"@) || has_infix(errors[i], "NotMounted"@))
}

/// Whether the errors of a move to the trash show the location has no
/// trash (which, on a cloud drive, is explained to the user).
pub fn has_mount_error(errors: &Vec<String>) -> (r: bool)
    ensures
        r == mount_error_in(crate::clipboard::texts(errors@)),
{
    let ghost es = crate::clipboard::texts(errors@);
    let a = chars_of("not support");
    let b = chars_of("Not Supported");
    let c = chars_of("not mounted");
    let d = chars_of("NotMounted");
    let mut i: usize = 0;
    while i < errors.len()
        invariant
            i <= errors@.len(),
            es == crate::clipboard::texts(errors@),
            a@ == "not support"@,
            b@ == "Not Supported"@,
            c@ == "not mounted"@,
            d@ == "NotMounted"@,
            forall|j: int|
                0 <= j < i ==> !(has_infix(#[trigger] es[j], "not support"@) || has_infix(
                    es[j],
                    "Not Supported"@,
                ) || has_infix(es[j], "not mounted"@) || has_infix(es[j], "NotMounted"@)),
        decreases errors.len() - i,
    {
        let e = chars_of(errors[i].as_str());
        assert(es[i as int] == e@);
        if contains_chars(&e, &a) || contains_chars(&e, &b) || contains_chars(&e, &c)
            || contains_chars(&e, &d) {
            return true;
        }
        i = i + 1;
    }
    false
}

/// The explanation shown when a cloud drive has no trash.
pub open spec fn cloud_trash_text(name: Seq<char>) -> Seq<char> {
    "'"@ + name
        + "' does not support Trash.\n\nFiles on this cloud drive cannot be moved to Trash. To delete, use Permanent Delete (Shift+Delete or the context menu), which requires an explicit confirmation and cannot be undone."@
}

/// The explanation shown when a cloud drive has no trash.
pub fn cloud_trash_message(name: &str) -> (r: String)
    ensures
        r@ == cloud_trash_text(name@),
{
    let mut out: Vec<char> = Vec::new();
    push_str(&mut out, "'");
    push_str(&mut out, name);
    push_str(
        &mut out,
        "' does not support Trash.\n\nFiles on this cloud drive cannot be moved to Trash. To delete, use Permanent Delete (Shift+Delete or the context menu), which requires an explicit confirmation and cannot be undone.",
    );
    string_of(&out)
}

/// Where a renamed item ends up: the new name in the item's folder, or the
/// bare name when the item has no parent.
pub open spec fn rename_target_text(path: Seq<char>, new_name: Seq<char>) -> Seq<char> {
    match parent(path) {
        Some(p) => join(p, new_name),
        None => new_name,
    }
}

/// The path an item gets when renamed.
pub fn rename_target(path: &str, new_name: &str) -> (r: String)
    ensures
        r@ == rename_target_text(path@, new_name@),
{
    match path_parent(&chars_of(path)) {
        Some(p) => string_of(&path_join(&p, &chars_of(new_name))),
        None => String::from_str(new_name),
    }
}

/// What a rename request leads to.
#[derive(Clone, Debug)]
pub enum RenameCheck {
    /// The name is empty: show "Invalid Name".
    Invalid,
    /// The item already has that name: nothing to do.
    Unchanged,
    /// Rename to this path.
    Proceed(String),
}

/// The outcome of checking a rename: empty names are refused, the current
/// name changes nothing, anything else renames within the folder.
pub open spec fn rename_check_of(path: Seq<char>, new_name: Seq<char>) -> Option<Option<Seq<char>>> {
    if new_name.len() == 0 {
        None
    } else if file_name(path) == Some(new_name) {
        Some(None)
    } else {
        Some(Some(rename_target_text(path, new_name)))
    }
}

/// The plain values of a rename check: `None` for invalid, `Some(None)`
/// for unchanged, `Some(Some(target))` to proceed.
pub open spec fn rename_check_view(c: RenameCheck) -> Option<Option<Seq<char>>> {
    match c {
        RenameCheck::Invalid => None,
        RenameCheck::Unchanged => Some(None),
        RenameCheck::Proceed(p) => Some(Some(p@)),
    }
}

/// Checks a request to rename the item at `path` to `new_name`.
pub fn rename_check(path: &str, new_name: &str) -> (r: RenameCheck)
    ensures
        rename_check_view(r) == rename_check_of(path@, new_name@),
{
    let n = chars_of(new_name);
    if n.len() == 0 {
        return RenameCheck::Invalid;
    }
    match path_file_name(&chars_of(path)) {
        Some(cur) => {
            if chars_eq(&cur, &n) {
                return RenameCheck::Unchanged;
            }
        },
        None => {},
    }
    RenameCheck::Proceed(rename_target(path, new_name))
}

/// A count of files with the right plural: "3 files", "1 file".
pub open spec fn files_text(n: nat) -> Seq<char> {
    decimal(n) + " file"@ + plural(n)
}

fn push_files(out: &mut Vec<char>, n: usize)
    ensures
        final(out)@ == old(out)@ + files_text(n as nat),
{
    push_decimal(out, n as u128);
    push_str(out, " file");
    if n != 1 {
        out.push('s');
    }
    assert(final(out)@ =~= old(out)@ + files_text(n as nat));
}

/// The operations-panel label of a bulk rename: "Renaming 3 files…".
pub fn bulk_rename_label(n: usize) -> (r: String)
    ensures
        r@ == "Renaming "@ + files_text(n as nat) + "\u{2026}"@,
{
    let mut out: Vec<char> = Vec::new();
    push_str(&mut out, "Renaming ");
    push_files(&mut out, n);
    push_str(&mut out, "\u{2026}");
    string_of(&out)
}

/// The activity summary of a bulk rename: "Renamed 3 files".
pub fn bulk_rename_summary(n: usize) -> (r: String)
    ensures
        r@ == "Renamed "@ + files_text(n as nat),
{
    let mut out: Vec<char> = Vec::new();
    push_str(&mut out, "Renamed ");
    push_files(&mut out, n);
    string_of(&out)
}

/// The status message after a bulk rename: "Renamed 2 files." when any
/// succeeded, nothing otherwise.
pub fn bulk_rename_status(successes: usize) -> (r: Option<String>)
    ensures
        crate::text::opt_text(r) == (if successes > 0 {
            Some("Renamed "@ + files_text(successes as nat) + "."@)
        } else {
            None
        }),
{
    if successes == 0 {
        return None;
    }
    let mut out: Vec<char> = Vec::new();
    push_str(&mut out, "Renamed ");
    push_files(&mut out, successes);
    push_str(&mut out, ".");
    Some(string_of(&out))
}


/// What a recursive copy does at one source path.
#[derive(Clone, Debug, PartialEq, Eq)]
pub enum CopyStep {
    /// The copy was cancelled ("Cancelled.").
    Cancelled,
    /// The source is not a folder: copy it, replacing what is there when
    /// `overwrite` is set.
    CopyFile { overwrite: bool },
    /// A file stands where the folder would go: fail with this message.
    Conflict(String),
    /// Create the destination folder (and its parents), then copy the
    /// children into it.
    CreateFolder,
    /// The destination folder exists: copy the children into it.
    MergeIntoFolder,
}

/// The step for a source path, given whether the copy was cancelled, the
/// source is a folder, something is at the destination and it is a folder.
pub open spec fn copy_step_for(
    cancelled: bool,
    source_is_dir: bool,
    dest_exists: bool,
    dest_is_dir: bool,
    overwrite: bool,
    r: CopyStep,
) -> bool {
    if cancelled {
        r == CopyStep::Cancelled
    } else if !source_is_dir {
        r == CopyStep::CopyFile { overwrite }
    } else if dest_exists && !dest_is_dir {
        r matches CopyStep::Conflict(m) && m@ == (if overwrite {
            "Cannot safely replace a file with a folder."@
        } else {
            "Destination already exists."@
        })
    } else if dest_exists {
        r == CopyStep::MergeIntoFolder
    } else {
        r == CopyStep::CreateFolder
    }
}

/// Decides what copying one source path does.
pub fn copy_step(cancelled: bool, source_is_dir: bool, dest_exists: bool, dest_is_dir: bool, overwrite: bool) -> (r:
    CopyStep)
    ensures
        copy_step_for(cancelled, source_is_dir, dest_exists, dest_is_dir, overwrite, r),
{
    if cancelled {
        CopyStep::Cancelled
    } else if !source_is_dir {
        CopyStep::CopyFile { overwrite }
    } else if dest_exists && !dest_is_dir {
        if overwrite {
            CopyStep::Conflict(String::from_str("Cannot safely replace a file with a folder."))
        } else {
            CopyStep::Conflict(String::from_str("Destination already exists."))
        }
    } else if dest_exists {
        CopyStep::MergeIntoFolder
    } else {
        CopyStep::CreateFolder
    }
}

/// How many levels below its folder bulk naming collects items.
pub const MAX_BULK_NAMING_RECURSION_DEPTH: usize = 32;


/// What a finished or cancelled trash batch reports to the holding tray:
/// how many items went to the trash, how many failed (a cancellation counts
/// as one failure), and the paths taken out of the tray (the ones trashed,
/// when the tray asked for that).
pub open spec fn trash_receipt_of(
    cancelled: bool,
    trashed: Seq<Seq<char>>,
    error_count: nat,
    clear_successful: bool,
) -> (nat, nat, Seq<Seq<char>>) {
    (
        trashed.len(),
        if cancelled {
            1
        } else {
            error_count
        },
        if clear_successful {
            trashed
        } else {
            seq![]
        },
    )
}

/// The holding-tray receipt of a trash batch.
pub fn trash_tray_receipt(cancelled: bool, trashed: &Vec<String>, error_count: usize, clear_successful: bool) -> (r: (
    usize,
    usize,
    Vec<String>,
))
    ensures
        (r.0 as nat, r.1 as nat, texts(r.2@)) == trash_receipt_of(
            cancelled,
            texts(trashed@),
            error_count as nat,
            clear_successful,
        ),
{
    let failed = if cancelled {
        1
    } else {
        error_count
    };
    let cleared = if clear_successful {
        crate::clipboard::clone_strings(trashed)
    } else {
        let v: Vec<String> = Vec::new();
        assert(texts(v@) =~= seq![]);
        v
    };
    (trashed.len(), failed, cleared)
}

/// The line recorded when moving or copying an item into a project fails:
/// "source → destination: title: explanation".
pub open spec fn project_failure_text(
    source: Seq<char>,
    destination: Seq<char>,
    kind: crate::format::IoErrorKind,
    message: Seq<char>,
) -> Seq<char> {
    source + " \u{2192} "@ + destination + ": "@ + crate::format::error_detail_text(kind, message)
}

/// The failure line of a project transfer.
pub fn project_transfer_failure(
    source: &str,
    destination: &str,
    kind: crate::format::IoErrorKind,
    message: &str,
) -> (r: String)
    ensures
        r@ == project_failure_text(source@, destination@, kind, message@),
{
    let detail = crate::format::friendly_error_detail(kind, message);
    let mut out: Vec<char> = Vec::new();
    push_str(&mut out, source);
    push_str(&mut out, " \u{2192} ");
    push_str(&mut out, destination);
    push_str(&mut out, ": ");
    push_str(&mut out, detail.as_str());
    assert(out@ =~= project_failure_text(source@, destination@, kind, message@));
    string_of(&out)
}

} // verus!
