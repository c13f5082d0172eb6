use bluedger::files::{file_path, file_request, master_file_path};

#[test]
fn master_file() {
    assert_eq!(master_file_path(), "/home/blueweabo/.config/bluedger/master.dat");
    assert_eq!(file_path(0, 0), "/home/blueweabo/.config/bluedger/master.dat");
}

#[test]
fn monthly_files() {
    assert_eq!(file_path(2025, 3), "/home/blueweabo/.config/bluedger/2025/3.dat");
    assert_eq!(file_path(0, 5), "/home/blueweabo/.config/bluedger/0/5.dat");
    assert_eq!(file_path(2025, 0), "/home/blueweabo/.config/bluedger/2025/0.dat");
}

#[test]
fn paths_differ_for_different_months() {
    let mut seen = std::collections::HashSet::new();
    for y in 0..30u64 {
        for m in 0..30u64 {
            assert!(seen.insert(file_path(y, m)));
        }
    }
}

#[test]
fn requests_from_text_fields() {
    let f = file_request("2025", "3", String::from("text")).unwrap();
    assert_eq!((f.year, f.month, f.contents.as_str()), (2025, 3, "text"));
    let f = file_request("0", "+0", String::new()).unwrap();
    assert_eq!((f.year, f.month), (0, 0));
    assert!(file_request("", "3", String::new()).is_none());
    assert!(file_request("2025", "march", String::new()).is_none());
    assert!(file_request("20 25", "3", String::new()).is_none());
}
