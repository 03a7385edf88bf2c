use capture_archive::catalog::CatalogEntry;
use capture_archive::sandbox::PathSandbox;
use capture_archive::report::{failure_message, Report, Step};
use capture_archive::transfer::{
    plan_folder_transfer, plan_source, plan_transfer, CopyStep, FolderTransfer, SourcePlan,
    TransferDecision, TransferRequest,
};

fn copy(source: &str, target: &str) -> SourcePlan {
    SourcePlan::Copy(CopyStep { source: String::from(source), target: String::from(target) })
}

fn entry(name: &str, path: &str) -> CatalogEntry {
    CatalogEntry { name: String::from(name), path: String::from(path) }
}

#[test]
fn same_file_name_under_two_labels_does_not_collide() {
    let sandbox = PathSandbox::new("/sandbox");
    let media = PathSandbox::removable_media();
    let request = TransferRequest {
        source: Some(vec![
            String::from("/sandbox/label1/photo.jpg"),
            String::from("/sandbox/label2/photo.jpg"),
        ]),
        drive: Some(String::from("/media/usb")),
        delete: None,
    };
    let decision = plan_transfer(&sandbox, &media, &request);
    assert_eq!(
        decision,
        TransferDecision::Copies(vec![
            copy("/sandbox/label1/photo.jpg", "/media/usb/label1-photo.jpg"),
            copy("/sandbox/label2/photo.jpg", "/media/usb/label2-photo.jpg"),
        ])
    );
}

#[test]
fn source_outside_the_sandbox_is_rejected_and_the_rest_goes_on() {
    let sandbox = PathSandbox::new("/sandbox");
    let media = PathSandbox::removable_media();
    let request = TransferRequest {
        source: Some(vec![
            String::from("/etc/ssh/key"),
            String::from("/sandbox/label1/photo.jpg"),
        ]),
        drive: Some(String::from("/media/usb/")),
        delete: None,
    };
    assert_eq!(
        plan_transfer(&sandbox, &media, &request),
        TransferDecision::Copies(vec![
            SourcePlan::Rejected,
            copy("/sandbox/label1/photo.jpg", "/media/usb/label1-photo.jpg"),
        ])
    );
}

#[test]
fn deletion_comes_before_everything_else() {
    let sandbox = PathSandbox::new("/sandbox");
    let media = PathSandbox::removable_media();
    let request = TransferRequest {
        source: Some(vec![String::from("/sandbox/label1/photo.jpg")]),
        drive: Some(String::from("/media/usb")),
        delete: Some(String::from("/sandbox/label1/old.jpg")),
    };
    assert_eq!(
        plan_transfer(&sandbox, &media, &request),
        TransferDecision::Delete(String::from("/sandbox/label1/old.jpg"))
    );
}

#[test]
fn request_without_drive_or_files_does_nothing() {
    let sandbox = PathSandbox::new("/sandbox");
    let media = PathSandbox::removable_media();
    let no_drive = TransferRequest {
        source: Some(vec![String::from("/sandbox/label1/photo.jpg")]),
        drive: None,
        delete: None,
    };
    assert_eq!(plan_transfer(&sandbox, &media, &no_drive), TransferDecision::Nothing);
    let no_files =
        TransferRequest { source: None, drive: Some(String::from("/media/usb")), delete: None };
    assert_eq!(plan_transfer(&sandbox, &media, &no_files), TransferDecision::Nothing);
    // a drive outside removable media does not matter where no file is selected
    let nothing_at_all =
        TransferRequest { source: None, drive: Some(String::from("/etc")), delete: None };
    assert_eq!(plan_transfer(&sandbox, &media, &nothing_at_all), TransferDecision::Nothing);
}

#[test]
fn drive_outside_removable_media_is_rejected() {
    let sandbox = PathSandbox::new("/sandbox");
    let media = PathSandbox::removable_media();
    for drive in ["/etc", "/medi", "", "/media", "media/usb"] {
        let request = TransferRequest {
            source: Some(vec![String::from("/sandbox/label1/photo.jpg")]),
            drive: Some(String::from(drive)),
            delete: None,
        };
        assert_eq!(
            plan_transfer(&sandbox, &media, &request),
            TransferDecision::InvalidTarget,
            "drive {:?}",
            drive
        );
    }
}

#[test]
fn empty_selection_plans_no_copy() {
    let sandbox = PathSandbox::new("/sandbox");
    let media = PathSandbox::removable_media();
    let request = TransferRequest {
        source: Some(Vec::new()),
        drive: Some(String::from("/media/usb")),
        delete: None,
    };
    assert_eq!(plan_transfer(&sandbox, &media, &request), TransferDecision::Copies(Vec::new()));
}

#[test]
fn source_in_the_sandbox_without_names_is_told_apart() {
    let sandbox = PathSandbox::new("/sandbox");
    assert_eq!(plan_source(&sandbox, "/media/usb", "/sandbox/a/.."), SourcePlan::NoFileName);
    assert_eq!(plan_source(&sandbox, "/media/usb", "/sandbox"), SourcePlan::NoLabel);
    assert_eq!(plan_source(&sandbox, "/media/usb", "/sandbox/"), SourcePlan::NoLabel);
}

#[test]
fn source_outside_the_sandbox_is_rejected_whatever_it_names() {
    let sandbox = PathSandbox::new("/sandbox");
    for source in ["/", "photo.jpg", "", "sa", "/etc/passwd", "..", "/etc/..", "label1/photo.jpg"] {
        assert_eq!(
            plan_source(&sandbox, "/media/usb", source),
            SourcePlan::Rejected,
            "source {:?}",
            source
        );
    }
}

#[test]
fn batch_goes_on_after_sources_that_fail_the_check() {
    let sandbox = PathSandbox::new("/sandbox");
    let media = PathSandbox::removable_media();
    let request = TransferRequest {
        source: Some(vec![
            String::from("sa"),
            String::from("/sandbox/label1/a.jpg"),
            String::from(""),
            String::from("photo.jpg"),
            String::from("/sandbox/label2/b.jpg"),
        ]),
        drive: Some(String::from("/media/usb")),
        delete: None,
    };
    assert_eq!(
        plan_transfer(&sandbox, &media, &request),
        TransferDecision::Copies(vec![
            SourcePlan::Rejected,
            copy("/sandbox/label1/a.jpg", "/media/usb/label1-a.jpg"),
            SourcePlan::Rejected,
            SourcePlan::Rejected,
            copy("/sandbox/label2/b.jpg", "/media/usb/label2-b.jpg"),
        ])
    );
}

#[test]
fn source_is_copied_under_its_label_and_name() {
    let sandbox = PathSandbox::new("/sandbox");
    assert_eq!(
        plan_source(&sandbox, "/media/usb", "/sandbox//ship42/2024-03-05_07.08.09.jpg"),
        copy(
            "/sandbox//ship42/2024-03-05_07.08.09.jpg",
            "/media/usb/ship42-2024-03-05_07.08.09.jpg"
        )
    );
}

#[test]
fn full_transfer_keeps_the_label_directory() {
    let files = vec![
        entry("a.jpg", "/sandbox/label1/a.jpg"),
        entry("b.jpg", "/sandbox/label1/b.jpg"),
    ];
    let plan = plan_folder_transfer("/media/usb", &entry("label1", "/sandbox/label1"), &files);
    assert_eq!(
        plan,
        FolderTransfer {
            directory: String::from("/media/usb/label1"),
            copies: vec![
                CopyStep {
                    source: String::from("/sandbox/label1/a.jpg"),
                    target: String::from("/media/usb/label1/a.jpg"),
                },
                CopyStep {
                    source: String::from("/sandbox/label1/b.jpg"),
                    target: String::from("/media/usb/label1/b.jpg"),
                },
            ],
        }
    );
}

#[test]
fn full_transfer_of_an_empty_label_only_makes_the_directory() {
    let plan = plan_folder_transfer("/media/usb/", &entry("label1", "/sandbox/label1"), &Vec::new());
    assert_eq!(
        plan,
        FolderTransfer { directory: String::from("/media/usb/label1"), copies: Vec::new() }
    );
}

#[test]
fn report_collects_messages_in_order() {
    let mut report = Report::new();
    assert_eq!(report.len(), 0);
    report.path_refused();
    report.copy_failed(
        &CopyStep {
            source: String::from("/sandbox/label1/a.jpg"),
            target: String::from("/media/usb/label1-a.jpg"),
        },
        "Os { code: 28 }",
    );
    report.bulk_copy_failed("Os { code: 13 }");
    assert_eq!(report.len(), 3);
    assert_eq!(
        report.into_messages(),
        vec![
            String::from("Invalid path"),
            String::from(
                "Could not copy file /sandbox/label1/a.jpg to /media/usb/label1-a.jpg\nOs { code: 28 }"
            ),
            String::from("unable to copy one or more files: Os { code: 13 }"),
        ]
    );
}

#[test]
fn report_without_failures_is_empty() {
    assert_eq!(Report::new().into_messages(), Vec::<String>::new());
}

#[test]
fn summary_puts_each_message_on_a_line() {
    let mut report = Report::new();
    assert_eq!(report.summary(), None);
    report.path_refused();
    assert_eq!(report.summary(), Some(String::from("Invalid path")));
    report.bulk_copy_failed("Kind(NotFound)");
    report.path_refused();
    assert_eq!(
        report.summary(),
        Some(String::from(
            "Invalid path\nunable to copy one or more files: Kind(NotFound)\nInvalid path"
        ))
    );
}

#[test]
fn archived_capture_is_transferred_under_label_and_stamp() {
    let sandbox = PathSandbox::new("/sandbox");
    let at = capture_archive::archive::Timestamp {
        year: 2024,
        month: 3,
        day: 5,
        hour: 7,
        minute: 8,
        second: 9,
    };
    let label = capture_archive::coordinator::submit("ship 42").unwrap();
    let archived = capture_archive::archive::plan_archive("/sandbox", &label, &at);
    assert_eq!(
        plan_source(&sandbox, "/media/usb", &archived.file),
        copy(
            "/sandbox/shipx42/2024-03-05_07.08.09.jpg",
            "/media/usb/shipx42-2024-03-05_07.08.09.jpg"
        )
    );
}

#[test]
fn each_step_has_its_message() {
    assert_eq!(failure_message(Step::ReadSnapshot, ""), "unable to read metadata from file");
    assert_eq!(failure_message(Step::ReadClock, ""), "system time before Unix epoch");
    assert_eq!(failure_message(Step::CreateDirectory, "Kind(PermissionDenied)"),
        "unable to create dir: Kind(PermissionDenied)");
    assert_eq!(failure_message(Step::SaveCapture, "Kind(NotFound)"),
        "failed to save capture: Kind(NotFound)");
    assert_eq!(failure_message(Step::DeleteFile, "Kind(NotFound)"),
        "Unable to delete file: Kind(NotFound)");
    assert_eq!(failure_message(Step::FindParent, ""), "cant find parent folder!");
    assert_eq!(failure_message(Step::ReadParent, "x"), "unable to read parent folder: x");
    assert_eq!(failure_message(Step::DeleteParent, "x"), "unable to delete parentfolder: x");
}

#[test]
fn step_that_was_done_leaves_no_message() {
    let mut report = Report::new();
    assert!(report.note(Step::DeleteFile, &Ok(())));
    assert!(report.note(Step::SaveCapture, &Ok(())));
    assert_eq!(report.summary(), None);
}

#[test]
fn step_that_failed_is_reported() {
    let mut report = Report::new();
    assert!(!report.note(Step::DeleteFile, &Err(String::from("Kind(NotFound)"))));
    assert!(report.note(Step::ReadParent, &Ok(())));
    report.step_failed(Step::FindParent, "");
    report.add("as it is");
    assert_eq!(
        report.into_messages(),
        vec![
            String::from("Unable to delete file: Kind(NotFound)"),
            String::from("cant find parent folder!"),
            String::from("as it is"),
        ]
    );
}
