//! The decisions and messages of the file operations: which inputs are
//! rejected and with which words, what is attempted, and how outcomes are
//! reported. The filesystem work itself happens at the caller's edge; these
//! functions decide and report.

use vstd::prelude::*;
use vstd::string::StringExecFns;

verus! {

/// The digit character of a value below ten.
pub open spec fn decimal_digit(d: int) -> char {
    if d == 0 {
        '0'
    } else if d == 1 {
        '1'
    } else if d == 2 {
        '2'
    } else if d == 3 {
        '3'
    } else if d == 4 {
        '4'
    } else if d == 5 {
        '5'
    } else if d == 6 {
        '6'
    } else if d == 7 {
        '7'
    } else if d == 8 {
        '8'
    } else {
        '9'
    }
}

/// The decimal numeral of `n`, most significant digit first, no sign and
/// no leading zero (the numeral of zero is the one digit).
pub open spec fn spec_decimal(n: nat) -> Seq<char>
    decreases n,
{
    if n < 10 {
        seq![decimal_digit(n as int)]
    } else {
        spec_decimal(n / 10) + seq![decimal_digit((n % 10) as int)]
    }
}

fn digit_str(d: u64) -> (r: &'static str)
    requires
        d < 10,
    ensures
        r@ == seq![decimal_digit(d as int)],
{
    proof {
        reveal_strlit("0");
        reveal_strlit("1");
        reveal_strlit("2");
        reveal_strlit("3");
        reveal_strlit("4");
        reveal_strlit("5");
        reveal_strlit("6");
        reveal_strlit("7");
        reveal_strlit("8");
        reveal_strlit("9");
    }
    if d == 0 {
        proof {
            assert(("0")@ =~= seq![decimal_digit(0)]);
        }
        "0"
    } else if d == 1 {
        proof {
            assert(("1")@ =~= seq![decimal_digit(1)]);
        }
        "1"
    } else if d == 2 {
        proof {
            assert(("2")@ =~= seq![decimal_digit(2)]);
        }
        "2"
    } else if d == 3 {
        proof {
            assert(("3")@ =~= seq![decimal_digit(3)]);
        }
        "3"
    } else if d == 4 {
        proof {
            assert(("4")@ =~= seq![decimal_digit(4)]);
        }
        "4"
    } else if d == 5 {
        proof {
            assert(("5")@ =~= seq![decimal_digit(5)]);
        }
        "5"
    } else if d == 6 {
        proof {
            assert(("6")@ =~= seq![decimal_digit(6)]);
        }
        "6"
    } else if d == 7 {
        proof {
            assert(("7")@ =~= seq![decimal_digit(7)]);
        }
        "7"
    } else if d == 8 {
        proof {
            assert(("8")@ =~= seq![decimal_digit(8)]);
        }
        "8"
    } else {
        proof {
            assert(("9")@ =~= seq![decimal_digit(9)]);
        }
        "9"
    }
}

/// Renders `n` as its decimal numeral.
pub fn u64_to_string(n: u64) -> (r: String)
    ensures
        r@ == spec_decimal(n as nat),
    decreases n,
{
    if n < 10 {
        digit_str(n).to_owned()
    } else {
        let mut s = u64_to_string(n / 10);
        s.append(digit_str(n % 10));
        s
    }
}

/// How many of the outcomes are successes.
pub open spec fn count_true(s: Seq<bool>) -> int
    decreases s.len(),
{
    if s.len() == 0 {
        0int
    } else {
        count_true(s.drop_last()) + if s.last() {
            1int
        } else {
            0int
        }
    }
}

/// Counts the successes among per-item outcomes.
pub fn count_successes(outcomes: &Vec<bool>) -> (r: u64)
    requires
        outcomes@.len() <= u64::MAX,
    ensures
        r == count_true(outcomes@),
{
    let mut c: u64 = 0;
    let mut i: usize = 0;
    proof {
        assert(outcomes@.take(0) =~= Seq::<bool>::empty());
    }
    while i < outcomes.len()
        invariant
            i <= outcomes@.len(),
            outcomes@.len() <= u64::MAX,
            c == count_true(outcomes@.take(i as int)),
            c <= i,
        decreases outcomes@.len() - i,
    {
        proof {
            assert(outcomes@.take(i as int + 1).drop_last() =~= outcomes@.take(i as int));
            assert(outcomes@.take(i as int + 1).last() == outcomes@[i as int]);
        }
        if outcomes[i] {
            c = c + 1;
        }
        i = i + 1;
    }
    proof {
        assert(outcomes@.take(outcomes@.len() as int) =~= outcomes@);
    }
    c
}

/// The greeting returned for a name.
pub fn greet(name: &str) -> (r: String)
    ensures
        r@ == "Hello, "@ + name@ + "! You've been greeted from Rust!"@,
{
    String::from_str("Hello, ").concat(name).concat("! You've been greeted from Rust!")
}

/// Whether a directory listing may proceed: the path must exist and be a
/// directory, each failure with its own words.
pub fn list_directory_precheck(exists: bool, is_dir: bool) -> (r: Result<(), String>)
    ensures
        r is Ok <==> exists && is_dir,
        !exists ==> (r matches Err(m) && m@ == "Directory does not exist"@),
        exists && !is_dir ==> (r matches Err(m) && m@ == "Path is not a directory"@),
{
    if !exists {
        Err(String::from_str("Directory does not exist"))
    } else if !is_dir {
        Err(String::from_str("Path is not a directory"))
    } else {
        Ok(())
    }
}

/// Where navigation lands: a missing path is rejected, a file leads to its
/// parent directory, a directory to itself.
pub fn navigation_target(path: String, exists: bool, is_file: bool, parent: Option<String>) -> (r:
    Result<String, String>)
    ensures
        !exists ==> (r matches Err(m) && m@ == "Path does not exist"@),
        exists && is_file && parent is Some ==> r == Ok::<String, String>(parent->0),
        exists && is_file && parent is None ==> (r matches Err(m) && m@
            == "Cannot navigate to file without parent directory"@),
        exists && !is_file ==> r == Ok::<String, String>(path),
{
    if !exists {
        Err(String::from_str("Path does not exist"))
    } else if is_file {
        match parent {
            Some(p) => Ok(p),
            None => Err(String::from_str("Cannot navigate to file without parent directory")),
        }
    } else {
        Ok(path)
    }
}

/// The result of asking for the working directory: the path found, or the
/// failure with the cause appended.
pub fn current_directory_result(found: Result<String, String>) -> (r: Result<String, String>)
    ensures
        found is Ok ==> r == Ok::<String, String>(found->Ok_0),
        found matches Err(e) ==> (r matches Err(m) && m@ == "Failed to get current directory: "@
            + e@),
{
    match found {
        Ok(p) => Ok(p),
        Err(e) => Err(String::from_str("Failed to get current directory: ").concat(e.as_str())),
    }
}

/// The result of asking for the home directory: the path found, or the
/// failure in its words.
pub fn home_directory_result(found: Option<String>) -> (r: Result<String, String>)
    ensures
        found is Some ==> r == Ok::<String, String>(found->0),
        found is None ==> (r matches Err(m) && m@ == "Unable to determine home directory"@),
{
    match found {
        Some(p) => Ok(p),
        None => Err(String::from_str("Unable to determine home directory")),
    }
}

/// Whether a folder may be created there: not when the target exists.
pub fn create_folder_precheck(target_exists: bool) -> (r: Result<(), String>)
    ensures
        r is Ok <==> !target_exists,
        target_exists ==> (r matches Err(m) && m@ == "Folder already exists"@),
{
    if target_exists {
        Err(String::from_str("Folder already exists"))
    } else {
        Ok(())
    }
}

/// Reports the outcome of creating the folder `name`.
pub fn create_folder_report(name: &str, result: Result<(), String>) -> (r: Result<String, String>)
    ensures
        result is Ok ==> (r matches Ok(m) && m@ == "Folder '"@ + name@ + "' created successfully"@),
        result matches Err(e) ==> (r matches Err(m) && m@ == "Failed to create folder: "@ + e@),
{
    match result {
        Ok(()) => Ok(
            String::from_str("Folder '").concat(name).concat("' created successfully"),
        ),
        Err(e) => Err(String::from_str("Failed to create folder: ").concat(e.as_str())),
    }
}

/// Whether a file may be created: the directory must exist and the name be
/// free.
pub fn create_file_precheck(dir_exists: bool, dir_is_dir: bool, target_exists: bool) -> (r: Result<
    (),
    String,
>)
    ensures
        r is Ok <==> dir_exists && dir_is_dir && !target_exists,
        !(dir_exists && dir_is_dir) ==> (r matches Err(m) && m@ == "Directory does not exist"@),
        dir_exists && dir_is_dir && target_exists ==> (r matches Err(m) && m@
            == "A file with that name already exists"@),
{
    if !dir_exists || !dir_is_dir {
        Err(String::from_str("Directory does not exist"))
    } else if target_exists {
        Err(String::from_str("A file with that name already exists"))
    } else {
        Ok(())
    }
}

/// Reports the outcome of creating the file `name`.
pub fn create_file_report(name: &str, result: Result<(), String>) -> (r: Result<String, String>)
    ensures
        result is Ok ==> (r matches Ok(m) && m@ == "File '"@ + name@ + "' created successfully"@),
        result matches Err(e) ==> (r matches Err(m) && m@ == "Failed to create file: "@ + e@),
{
    match result {
        Ok(()) => Ok(String::from_str("File '").concat(name).concat("' created successfully")),
        Err(e) => Err(String::from_str("Failed to create file: ").concat(e.as_str())),
    }
}

/// How an item is deleted: a directory with its contents, a file alone; a
/// missing item is rejected.
#[derive(Clone, Copy, PartialEq, Eq, Structural, Debug)]
pub enum DeleteAction {
    RemoveDirectoryTree,
    RemoveFile,
}

/// Decides the deletion.
pub fn delete_plan(exists: bool, is_dir: bool) -> (r: Result<DeleteAction, String>)
    ensures
        !exists ==> (r matches Err(m) && m@ == "Item does not exist"@),
        exists && is_dir ==> r == Ok::<DeleteAction, String>(DeleteAction::RemoveDirectoryTree),
        exists && !is_dir ==> r == Ok::<DeleteAction, String>(DeleteAction::RemoveFile),
{
    if !exists {
        Err(String::from_str("Item does not exist"))
    } else if is_dir {
        Ok(DeleteAction::RemoveDirectoryTree)
    } else {
        Ok(DeleteAction::RemoveFile)
    }
}

/// Reports the outcome of a deletion.
pub fn delete_report(result: Result<(), String>) -> (r: Result<String, String>)
    ensures
        result is Ok ==> (r matches Ok(m) && m@ == "Item deleted successfully"@),
        result matches Err(e) ==> (r matches Err(m) && m@ == "Failed to delete item: "@ + e@),
{
    match result {
        Ok(()) => Ok(String::from_str("Item deleted successfully")),
        Err(e) => Err(String::from_str("Failed to delete item: ").concat(e.as_str())),
    }
}

/// Whether a rename may proceed: the item must exist, have a parent
/// directory, and the new name must be free.
pub fn rename_precheck(exists: bool, has_parent: bool, new_exists: bool) -> (r: Result<(), String>)
    ensures
        r is Ok <==> exists && has_parent && !new_exists,
        !exists ==> (r matches Err(m) && m@ == "Item does not exist"@),
        exists && !has_parent ==> (r matches Err(m) && m@ == "Cannot rename root directory"@),
        exists && has_parent && new_exists ==> (r matches Err(m) && m@
            == "An item with that name already exists"@),
{
    if !exists {
        Err(String::from_str("Item does not exist"))
    } else if !has_parent {
        Err(String::from_str("Cannot rename root directory"))
    } else if new_exists {
        Err(String::from_str("An item with that name already exists"))
    } else {
        Ok(())
    }
}

/// Reports the outcome of renaming to `new_name`.
pub fn rename_report(new_name: &str, result: Result<(), String>) -> (r: Result<String, String>)
    ensures
        result is Ok ==> (r matches Ok(m) && m@ == "Item renamed to '"@ + new_name@
            + "' successfully"@),
        result matches Err(e) ==> (r matches Err(m) && m@ == "Failed to rename item: "@ + e@),
{
    match result {
        Ok(()) => Ok(
            String::from_str("Item renamed to '").concat(new_name).concat("' successfully"),
        ),
        Err(e) => Err(String::from_str("Failed to rename item: ").concat(e.as_str())),
    }
}

/// Whether a copy or move may proceed at all: the destination must exist
/// and be a directory.
pub fn transfer_destination_precheck(dest_exists: bool, dest_is_dir: bool) -> (r: Result<
    (),
    String,
>)
    ensures
        r is Ok <==> dest_exists && dest_is_dir,
        r is Err ==> r->Err_0@ == "Destination directory does not exist"@,
{
    if dest_exists && dest_is_dir {
        Ok(())
    } else {
        Err(String::from_str("Destination directory does not exist"))
    }
}

/// Whether one source item is attempted: it must exist, have a file name,
/// and the destination name must be free; otherwise it is skipped.
pub fn should_transfer(source_exists: bool, has_file_name: bool, destination_exists: bool) -> (r:
    bool)
    ensures
        r == (source_exists && has_file_name && !destination_exists),
{
    source_exists && has_file_name && !destination_exists
}

/// The report after copying: how many items were copied.
pub fn copied_message(copied_count: u64) -> (r: String)
    ensures
        r@ == spec_decimal(copied_count as nat) + " item(s) copied successfully"@,
{
    u64_to_string(copied_count).concat(" item(s) copied successfully")
}

/// The report after moving: how many items were moved.
pub fn moved_message(moved_count: u64) -> (r: String)
    ensures
        r@ == spec_decimal(moved_count as nat) + " item(s) moved successfully"@,
{
    u64_to_string(moved_count).concat(" item(s) moved successfully")
}

/// Whether a file may be opened with the default application: it must
/// exist and not be a directory.
pub fn open_file_precheck(exists: bool, is_dir: bool) -> (r: Result<(), String>)
    ensures
        r is Ok <==> exists && !is_dir,
        !exists ==> (r matches Err(m) && m@ == "File does not exist"@),
        exists && is_dir ==> (r matches Err(m) && m@
            == "Cannot open directory with default app. Use navigate instead."@),
{
    if !exists {
        Err(String::from_str("File does not exist"))
    } else if is_dir {
        Err(String::from_str("Cannot open directory with default app. Use navigate instead."))
    } else {
        Ok(())
    }
}

/// Reports the outcome of opening `display_name` with the default
/// application.
pub fn open_file_report(display_name: &str, result: Result<(), String>) -> (r: Result<
    String,
    String,
>)
    ensures
        result is Ok ==> (r matches Ok(m) && m@ == "Opened '"@ + display_name@
            + "' with default application"@),
        result matches Err(e) ==> (r matches Err(m) && m@ == "Failed to open file: "@ + e@),
{
    match result {
        Ok(()) => Ok(
            String::from_str("Opened '").concat(display_name).concat("' with default application"),
        ),
        Err(e) => Err(String::from_str("Failed to open file: ").concat(e.as_str())),
    }
}

/// Whether a path may be read as a text file: it must exist and not be a
/// directory.
pub fn read_text_precheck(exists: bool, is_dir: bool) -> (r: Result<(), String>)
    ensures
        r is Ok <==> exists && !is_dir,
        !exists ==> (r matches Err(m) && m@ == "File does not exist"@),
        exists && is_dir ==> (r matches Err(m) && m@ == "Cannot read directory as text file"@),
{
    if !exists {
        Err(String::from_str("File does not exist"))
    } else if is_dir {
        Err(String::from_str("Cannot read directory as text file"))
    } else {
        Ok(())
    }
}

/// Whether a text file may be written: it must exist and not be a
/// directory.
pub fn write_text_precheck(exists: bool, is_dir: bool) -> (r: Result<(), String>)
    ensures
        r is Ok <==> exists && !is_dir,
        !exists ==> (r matches Err(m) && m@ == "File does not exist"@),
        exists && is_dir ==> (r matches Err(m) && m@ == "Cannot write to directory"@),
{
    if !exists {
        Err(String::from_str("File does not exist"))
    } else if is_dir {
        Err(String::from_str("Cannot write to directory"))
    } else {
        Ok(())
    }
}

/// Reports the outcome of writing a text file.
pub fn write_text_report(result: Result<(), String>) -> (r: Result<String, String>)
    ensures
        result is Ok ==> (r matches Ok(m) && m@ == "File saved successfully"@),
        result matches Err(e) ==> (r matches Err(m) && m@ == "Failed to write file: "@ + e@),
{
    match result {
        Ok(()) => Ok(String::from_str("File saved successfully")),
        Err(e) => Err(String::from_str("Failed to write file: ").concat(e.as_str())),
    }
}

} // verus!
