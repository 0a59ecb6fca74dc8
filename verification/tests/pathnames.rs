use blackout::naming::{export_page_file_name, format_decimal};
use blackout::paths::{extension, file_name, has_extension, is_pdf_path, join_path};

fn s(x: &str) -> String {
    x.to_owned()
}

#[test]
fn file_name_is_the_part_after_the_last_slash() {
    assert_eq!(file_name(&s("dir/sub/report.pdf")), "report.pdf");
    assert_eq!(file_name(&s("report.pdf")), "report.pdf");
    assert_eq!(file_name(&s("dir/")), "");
    assert_eq!(file_name(&s("")), "");
}

#[test]
fn extension_is_the_part_after_the_last_dot() {
    assert_eq!(extension(&s("a/b/report.pdf")), Some(s("pdf")));
    assert_eq!(extension(&s("archive.tar.gz")), Some(s("gz")));
    assert_eq!(extension(&s("out")), None);
    assert_eq!(extension(&s("dir.d/out")), None);
    assert_eq!(extension(&s(".hidden")), None);
}

#[test]
fn output_without_extension_is_a_directory_target() {
    assert!(!has_extension(&s("out/")));
    assert!(!has_extension(&s("out")));
    assert!(has_extension(&s("out/merged.pdf")));
}

#[test]
fn pdf_extension_is_matched_case_insensitively() {
    assert!(is_pdf_path(&s("a.pdf")));
    assert!(is_pdf_path(&s("A.PDF")));
    assert!(is_pdf_path(&s("dir/b.Pdf")));
    assert!(!is_pdf_path(&s("a.pdfx")));
    assert!(!is_pdf_path(&s("a.txt")));
    assert!(!is_pdf_path(&s("pdf")));
    assert!(!is_pdf_path(&s("dir.pdf/name")));
}

#[test]
fn join_inserts_a_separator_only_when_needed() {
    assert_eq!(join_path(&s("out"), &s("a.pdf")), "out/a.pdf");
    assert_eq!(join_path(&s("out/"), &s("a.pdf")), "out/a.pdf");
}

#[test]
fn decimal_formatting_matches_standard_notation() {
    assert_eq!(format_decimal(0), "0");
    assert_eq!(format_decimal(7), "7");
    assert_eq!(format_decimal(10), "10");
    assert_eq!(format_decimal(90210), "90210");
    for n in [0usize, 1, 9, 10, 99, 100, 12345] {
        assert_eq!(format_decimal(n), n.to_string());
    }
}

#[test]
fn export_file_names_carry_base_and_page_index() {
    assert_eq!(export_page_file_name(&s("report"), 0), "report-page-0.jpg");
    assert_eq!(export_page_file_name(&s("scan"), 12), "scan-page-12.jpg");
}
