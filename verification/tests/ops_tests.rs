use file_explorer::{
    copied_message, current_directory_result, count_successes, create_file_precheck, create_file_report,
    create_folder_precheck, create_folder_report, delete_plan, delete_report, greet,
    home_directory_result, list_directory_precheck, moved_message, navigation_target,
    open_file_precheck, open_file_report, read_text_precheck, rename_precheck, rename_report,
    should_transfer, transfer_destination_precheck, u64_to_string, write_text_precheck,
    write_text_report, DeleteAction,
};

#[test]
fn greeting_embeds_the_name() {
    assert_eq!(greet("Ada"), "Hello, Ada! You've been greeted from Rust!");
}

#[test]
fn decimal_rendering() {
    assert_eq!(u64_to_string(0), "0");
    assert_eq!(u64_to_string(7), "7");
    assert_eq!(u64_to_string(10), "10");
    assert_eq!(u64_to_string(90210), "90210");
    assert_eq!(u64_to_string(u64::MAX), "18446744073709551615");
}

#[test]
fn counting_successes() {
    assert_eq!(count_successes(&vec![]), 0);
    assert_eq!(count_successes(&vec![true, false, true, true]), 3);
    assert_eq!(count_successes(&vec![false, false]), 0);
}

#[test]
fn transfer_messages_carry_the_count() {
    assert_eq!(copied_message(0), "0 item(s) copied successfully");
    assert_eq!(copied_message(3), "3 item(s) copied successfully");
    assert_eq!(moved_message(12), "12 item(s) moved successfully");
}

#[test]
fn listing_precheck_rejects_missing_and_non_directories() {
    assert_eq!(list_directory_precheck(false, false), Err("Directory does not exist".to_string()));
    assert_eq!(list_directory_precheck(true, false), Err("Path is not a directory".to_string()));
    assert_eq!(list_directory_precheck(true, true), Ok(()));
}

#[test]
fn navigation_goes_to_the_parent_of_a_file() {
    assert_eq!(
        navigation_target("/a/b.txt".to_string(), true, true, Some("/a".to_string())),
        Ok("/a".to_string())
    );
    assert_eq!(
        navigation_target("/a".to_string(), true, false, None),
        Ok("/a".to_string())
    );
    assert_eq!(
        navigation_target("/gone".to_string(), false, false, None),
        Err("Path does not exist".to_string())
    );
    assert_eq!(
        navigation_target("/".to_string(), true, true, None),
        Err("Cannot navigate to file without parent directory".to_string())
    );
}

#[test]
fn current_directory_reporting() {
    assert_eq!(current_directory_result(Ok("/work".to_string())), Ok("/work".to_string()));
    assert_eq!(
        current_directory_result(Err("no cwd".to_string())),
        Err("Failed to get current directory: no cwd".to_string())
    );
}

#[test]
fn home_directory_reporting() {
    assert_eq!(home_directory_result(Some("/home/u".to_string())), Ok("/home/u".to_string()));
    assert_eq!(
        home_directory_result(None),
        Err("Unable to determine home directory".to_string())
    );
}

#[test]
fn folder_creation_decisions_and_reports() {
    assert_eq!(create_folder_precheck(true), Err("Folder already exists".to_string()));
    assert_eq!(create_folder_precheck(false), Ok(()));
    assert_eq!(
        create_folder_report("pics", Ok(())),
        Ok("Folder 'pics' created successfully".to_string())
    );
    assert_eq!(
        create_folder_report("pics", Err("denied".to_string())),
        Err("Failed to create folder: denied".to_string())
    );
}

#[test]
fn file_creation_decisions_and_reports() {
    assert_eq!(
        create_file_precheck(false, false, false),
        Err("Directory does not exist".to_string())
    );
    assert_eq!(
        create_file_precheck(true, false, false),
        Err("Directory does not exist".to_string())
    );
    assert_eq!(
        create_file_precheck(true, true, true),
        Err("A file with that name already exists".to_string())
    );
    assert_eq!(create_file_precheck(true, true, false), Ok(()));
    assert_eq!(
        create_file_report("a.txt", Ok(())),
        Ok("File 'a.txt' created successfully".to_string())
    );
    assert_eq!(
        create_file_report("a.txt", Err("full".to_string())),
        Err("Failed to create file: full".to_string())
    );
}

#[test]
fn deletion_decisions_and_reports() {
    assert_eq!(delete_plan(false, false), Err("Item does not exist".to_string()));
    assert_eq!(delete_plan(true, true), Ok(DeleteAction::RemoveDirectoryTree));
    assert_eq!(delete_plan(true, false), Ok(DeleteAction::RemoveFile));
    assert_eq!(delete_report(Ok(())), Ok("Item deleted successfully".to_string()));
    assert_eq!(
        delete_report(Err("busy".to_string())),
        Err("Failed to delete item: busy".to_string())
    );
}

#[test]
fn rename_decisions_and_reports() {
    assert_eq!(rename_precheck(false, true, false), Err("Item does not exist".to_string()));
    assert_eq!(rename_precheck(true, false, false), Err("Cannot rename root directory".to_string()));
    assert_eq!(
        rename_precheck(true, true, true),
        Err("An item with that name already exists".to_string())
    );
    assert_eq!(rename_precheck(true, true, false), Ok(()));
    assert_eq!(
        rename_report("new.txt", Ok(())),
        Ok("Item renamed to 'new.txt' successfully".to_string())
    );
    assert_eq!(
        rename_report("new.txt", Err("locked".to_string())),
        Err("Failed to rename item: locked".to_string())
    );
}

#[test]
fn transfer_decisions() {
    assert_eq!(
        transfer_destination_precheck(false, false),
        Err("Destination directory does not exist".to_string())
    );
    assert_eq!(
        transfer_destination_precheck(true, false),
        Err("Destination directory does not exist".to_string())
    );
    assert_eq!(transfer_destination_precheck(true, true), Ok(()));
    assert!(should_transfer(true, true, false));
    assert!(!should_transfer(false, true, false));
    assert!(!should_transfer(true, false, false));
    assert!(!should_transfer(true, true, true));
}

#[test]
fn open_decisions_and_reports() {
    assert_eq!(open_file_precheck(false, false), Err("File does not exist".to_string()));
    assert_eq!(
        open_file_precheck(true, true),
        Err("Cannot open directory with default app. Use navigate instead.".to_string())
    );
    assert_eq!(open_file_precheck(true, false), Ok(()));
    assert_eq!(
        open_file_report("a.pdf", Ok(())),
        Ok("Opened 'a.pdf' with default application".to_string())
    );
    assert_eq!(
        open_file_report("a.pdf", Err("no handler".to_string())),
        Err("Failed to open file: no handler".to_string())
    );
}

#[test]
fn text_file_prechecks_and_write_reports() {
    assert_eq!(read_text_precheck(false, false), Err("File does not exist".to_string()));
    assert_eq!(
        read_text_precheck(true, true),
        Err("Cannot read directory as text file".to_string())
    );
    assert_eq!(read_text_precheck(true, false), Ok(()));
    assert_eq!(write_text_precheck(false, false), Err("File does not exist".to_string()));
    assert_eq!(write_text_precheck(true, true), Err("Cannot write to directory".to_string()));
    assert_eq!(write_text_precheck(true, false), Ok(()));
    assert_eq!(write_text_report(Ok(())), Ok("File saved successfully".to_string()));
    assert_eq!(
        write_text_report(Err("read-only".to_string())),
        Err("Failed to write file: read-only".to_string())
    );
}
