use phpfixer::edit::{Edit, perform_edit, position_for_offset};
use phpfixer::fixer::{model_of, run_fixer, Fixer, FixerError};
use phpfixer::fixers::array_bracket_space::ArrayBracketSpaceFixer;
use phpfixer::fixers::declare_directive_existence::DeclareDirectiveExistenceFixer;
use phpfixer::fixers::indent_bracket_body::IndentBracketBodyFixer;
use phpfixer::fixers::remove_unused_imports::RemoveUnusedImportsFixer;
use phpfixer::kind::Kind;

#[test]
fn perform_edit_replaces_only_the_given_range() {
    let mut buf = b"abcdef".to_vec();
    let edit = Edit { position: 2, deleted_length: 2, inserted_text: b"XYZ".to_vec() };
    let info = perform_edit(&mut buf, &edit);
    assert_eq!(buf, b"abXYZef".to_vec());
    assert_eq!(info.start_byte, 2);
    assert_eq!(info.old_end_byte, 4);
    assert_eq!(info.new_end_byte, 5);
}

#[test]
fn perform_edit_reports_row_and_column_positions() {
    let mut buf = b"a\nbc\ndef".to_vec();
    let edit = Edit { position: 5, deleted_length: 3, inserted_text: b"x".to_vec() };
    let info = perform_edit(&mut buf, &edit);
    assert_eq!(buf, b"a\nbc\nx".to_vec());
    assert_eq!(info.start_position.row, 2);
    assert_eq!(info.start_position.column, 0);
    assert_eq!(info.old_end_position.row, 2);
    assert_eq!(info.old_end_position.column, 3);
    assert_eq!(info.new_end_position.row, 2);
    assert_eq!(info.new_end_position.column, 1);
}

#[test]
fn position_for_offset_counts_rows_and_columns() {
    let buf = b"ab\nc\n\nxy".to_vec();
    let p = position_for_offset(&buf, 0);
    assert_eq!((p.row, p.column), (0, 0));
    let p = position_for_offset(&buf, 2);
    assert_eq!((p.row, p.column), (0, 2));
    let p = position_for_offset(&buf, 3);
    assert_eq!((p.row, p.column), (1, 0));
    let p = position_for_offset(&buf, 8);
    assert_eq!((p.row, p.column), (3, 2));
}

#[test]
fn running_a_fixer_twice_changes_nothing_more() {
    let input = b"<?php\n$value = [1,2,[a,b,c],3];\n".to_vec();
    let once = run_fixer(input, Fixer::ArrayBracketSpace(ArrayBracketSpaceFixer {})).unwrap();
    let twice =
        run_fixer(once.clone(), Fixer::ArrayBracketSpace(ArrayBracketSpaceFixer {})).unwrap();
    assert_eq!(once, twice);
}

#[test]
fn directive_present_means_zero_edits() {
    let input = b"<?php declare(strict_types = 1);\n".to_vec();
    let out = run_fixer(
        input.clone(),
        Fixer::DeclareDirectiveExistence(DeclareDirectiveExistenceFixer {}),
    )
    .unwrap();
    assert_eq!(out, input);
}

#[test]
fn unused_import_removal_is_reported_unsupported() {
    let input = b"<?php\nuse App\\One;\n".to_vec();
    let r = run_fixer(input, Fixer::RemoveUnusedImports(RemoveUnusedImportsFixer {}));
    assert_eq!(r.unwrap_err(), FixerError::UnsupportedConstruct);
}

#[test]
fn switch_blocks_are_reported_unsupported() {
    let input =
        b"<?php\nclass Test {\nfunction sample() {\nswitch ($a) {\ndefault:\n}\n}\n}\n".to_vec();
    let r = run_fixer(input, Fixer::IndentBracketBody(IndentBracketBodyFixer {}));
    assert_eq!(r.unwrap_err(), FixerError::UnsupportedConstruct);
}

#[test]
fn the_model_starts_at_the_program_node() {
    let buf = b"<?php\n$a = 1;\n".to_vec();
    let tree = model_of(&buf).unwrap();
    assert_eq!(tree.nodes[0].kind, Kind::Program);
    assert!(tree.nodes.len() > 3);
    assert_eq!(tree.nodes[0].start_byte, 0);
}
