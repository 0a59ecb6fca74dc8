use blackout::assemble::{append_page, assemble_unit, new_document, SourceDoc};
use blackout::discover::{discover, discover_in_dir};
use blackout::plan::{
    batch_exit_code, count_failures, plan_units, resolve_output_mode, BatchError, BatchResult,
    OutputMode, Unit,
};
use blackout::raster::{Pixel, Raster};

fn s(x: &str) -> String {
    x.to_owned()
}

fn px(r: u8, g: u8, b: u8) -> Pixel {
    Pixel { r, g, b }
}

fn one_pixel_page(p: Pixel) -> Raster {
    Raster::new(1, 1, vec![p]).unwrap()
}

#[test]
fn prefix_filter_selects_exactly_the_matching_reports() {
    let entries = vec![
        s("in/summary.pdf"),
        s("in/report_jan.pdf"),
        s("in/report_feb.pdf"),
    ];
    let found = discover_in_dir(&entries, &Some(s("report_")));
    assert_eq!(found, vec![s("in/report_feb.pdf"), s("in/report_jan.pdf")]);
}

#[test]
fn discovery_keeps_only_documents_and_sorts_them() {
    let entries = vec![
        s("in/c.pdf"),
        s("in/notes.txt"),
        s("in/a.PDF"),
        s("in/b.pdf"),
        s("in/subdir"),
    ];
    let found = discover_in_dir(&entries, &None);
    assert_eq!(found, vec![s("in/a.PDF"), s("in/b.pdf"), s("in/c.pdf")]);
}

#[test]
fn an_empty_directory_discovers_nothing() {
    let found = discover_in_dir(&Vec::new(), &None);
    assert!(found.is_empty());
    let units = plan_units(&found, &s("out"));
    assert!(units.is_empty());
}

#[test]
fn a_single_file_input_is_the_working_set() {
    let found = discover(&s("only.pdf"), false, &Vec::new(), &None);
    assert_eq!(found, vec![s("only.pdf")]);
}

#[test]
fn output_path_extension_selects_the_mode() {
    assert_eq!(resolve_output_mode(&s("out/")), OutputMode::PerInput);
    assert_eq!(resolve_output_mode(&s("out")), OutputMode::PerInput);
    assert_eq!(resolve_output_mode(&s("out/merged.pdf")), OutputMode::Concatenated);
}

#[test]
fn concatenated_mode_plans_one_unit_at_exactly_the_given_path() {
    let inputs = vec![s("in/a.pdf"), s("in/b.pdf"), s("in/c.pdf")];
    let units: Vec<Unit> = plan_units(&inputs, &s("out/merged.pdf"));
    assert_eq!(units.len(), 1);
    assert_eq!(units[0].inputs, inputs);
    assert_eq!(units[0].output, "out/merged.pdf");
}

#[test]
fn per_input_mode_plans_one_artifact_per_input() {
    let inputs = vec![s("in/a.pdf"), s("in/b.pdf"), s("in/c.pdf")];
    let units = plan_units(&inputs, &s("out"));
    assert_eq!(units.len(), 3);
    for (unit, input) in units.iter().zip(inputs.iter()) {
        assert_eq!(unit.inputs, vec![input.clone()]);
    }
    assert_eq!(units[0].output, "out/a.pdf");
    assert_eq!(units[1].output, "out/b.pdf");
    assert_eq!(units[2].output, "out/c.pdf");
}

#[test]
fn one_failed_input_gives_a_nonzero_exit_code() {
    let results = vec![
        BatchResult { input: s("in/a.pdf"), outcome: Ok(()) },
        BatchResult { input: s("in/bad.pdf"), outcome: Err(BatchError::Open) },
        BatchResult { input: s("in/b.pdf"), outcome: Ok(()) },
        BatchResult { input: s("in/c.pdf"), outcome: Ok(()) },
    ];
    assert_eq!(count_failures(&results), 1);
    assert_eq!(batch_exit_code(&results), 1);
}

#[test]
fn a_fully_successful_batch_exits_with_zero() {
    let results = vec![
        BatchResult { input: s("in/a.pdf"), outcome: Ok(()) },
        BatchResult { input: s("in/b.pdf"), outcome: Ok(()) },
    ];
    assert_eq!(count_failures(&results), 0);
    assert_eq!(batch_exit_code(&results), 0);
    assert_eq!(batch_exit_code(&Vec::new()), 0);
}

#[test]
fn every_error_kind_counts_as_a_failure() {
    let kinds = [
        BatchError::Validation,
        BatchError::Open,
        BatchError::Render,
        BatchError::Write,
        BatchError::Encoding,
    ];
    for kind in kinds {
        let results = vec![BatchResult { input: s("in/a.pdf"), outcome: Err(kind) }];
        assert_eq!(count_failures(&results), 1);
        assert_eq!(batch_exit_code(&results), 1);
    }
}

#[test]
fn assembly_concatenates_documents_in_order_and_thresholds_pages() {
    let doc_a = SourceDoc { pages: vec![one_pixel_page(px(255, 255, 255)), one_pixel_page(px(9, 9, 9))] };
    let doc_b = SourceDoc { pages: vec![one_pixel_page(px(254, 255, 255))] };
    let doc_c = SourceDoc { pages: vec![one_pixel_page(px(255, 255, 255))] };
    let out = assemble_unit(&vec![doc_a, doc_b, doc_c]);
    let got: Vec<Pixel> = out.pages.iter().map(|p| p.pixels[0]).collect();
    assert_eq!(
        got,
        vec![px(255, 255, 255), px(0, 0, 0), px(0, 0, 0), px(255, 255, 255)]
    );
}

#[test]
fn a_single_document_keeps_its_page_count_and_order() {
    let pages = vec![
        one_pixel_page(px(255, 255, 255)),
        one_pixel_page(px(1, 2, 3)),
        one_pixel_page(px(255, 255, 255)),
        one_pixel_page(px(0, 0, 0)),
    ];
    let doc = SourceDoc { pages };
    let out = assemble_unit(&vec![doc]);
    assert_eq!(out.pages.len(), 4);
    assert_eq!(out.pages[0].pixels[0], px(255, 255, 255));
    assert_eq!(out.pages[1].pixels[0], px(0, 0, 0));
    assert_eq!(out.pages[2].pixels[0], px(255, 255, 255));
    assert_eq!(out.pages[3].pixels[0], px(0, 0, 0));
}

#[test]
fn appending_pages_builds_the_document_in_call_order() {
    let mut doc = new_document();
    assert_eq!(doc.pages.len(), 0);
    append_page(&mut doc, one_pixel_page(px(0, 0, 0)));
    append_page(&mut doc, one_pixel_page(px(255, 255, 255)));
    assert_eq!(doc.pages.len(), 2);
    assert_eq!(doc.pages[0].pixels[0], px(0, 0, 0));
    assert_eq!(doc.pages[1].pixels[0], px(255, 255, 255));
}
